use vstd::prelude::*;

verus! {

/// A reply of the daemon: one line `<kind> <payload>`.
#[derive(Debug)]
pub enum Response {
    Successfully(Option<String>),
    Data(String),
    Error(String),
}

/// The words of `ws` joined with single spaces.
pub open spec fn join_words(ws: Seq<String>) -> Seq<char>
    decreases ws.len(),
{
    if ws.len() == 0 {
        Seq::empty()
    } else if ws.len() == 1 {
        ws[0]@
    } else {
        join_words(ws.drop_last()) + seq![' '] + ws.last()@
    }
}

/// The text of a reply.
pub open spec fn response_text(r: Response) -> Seq<char> {
    match r {
        Response::Data(d) => "data "@ + d@,
        Response::Error(e) => "error "@ + e@,
        Response::Successfully(Some(m)) => "success "@ + m@,
        Response::Successfully(None) => "success"@,
    }
}

impl Response {
    /// The line sent back for this reply; a bare success carries no payload.
    pub fn to_string(self) -> (r: String)
        ensures
            r@ == response_text(self),
    {
        match self {
            Response::Data(d) => String::from_str("data ").concat(d.as_str()),
            Response::Error(e) => String::from_str("error ").concat(e.as_str()),
            Response::Successfully(Some(m)) => String::from_str("success ").concat(m.as_str()),
            Response::Successfully(None) => String::from_str("success"),
        }
    }
}

/// The words of `ws` from index `from` on, joined with single spaces.
pub fn join_from(ws: &Vec<String>, from: usize) -> (r: String)
    requires
        from <= ws@.len(),
    ensures
        r@ == join_words(ws@.subrange(from as int, ws@.len() as int)),
{
    let mut r = String::new();
    let mut i: usize = from;
    proof {
        reveal_strlit(" ");
        assert(ws@.subrange(from as int, from as int).len() == 0);
    }
    while i < ws.len()
        invariant
            from <= i <= ws@.len(),
            r@ == join_words(ws@.subrange(from as int, i as int)),
        decreases ws.len() - i,
    {
        let ghost prev = ws@.subrange(from as int, i as int);
        let ghost next = ws@.subrange(from as int, i + 1);
        assert(next.drop_last() =~= prev);
        if i > from {
            r.append(" ");
            assert(" "@ =~= seq![' ']) by {
                reveal_strlit(" ");
            }
        } else {
            assert(r@ =~= Seq::<char>::empty());
            assert(next.len() == 1);
        }
        r.append(ws[i].as_str());
        i = i + 1;
    }
    r
}

/// The verbs of the control protocol.
#[derive(Clone, Copy, Debug, PartialEq, Eq, Structural)]
pub enum Verb {
    Start,
    Stop,
    Restart,
    Status,
    Backup,
    Delete,
}

pub open spec fn spec_verb(w: Seq<char>) -> Option<Verb> {
    if w == "start"@ {
        Some(Verb::Start)
    } else if w == "stop"@ {
        Some(Verb::Stop)
    } else if w == "restart"@ {
        Some(Verb::Restart)
    } else if w == "status"@ {
        Some(Verb::Status)
    } else if w == "backup"@ {
        Some(Verb::Backup)
    } else if w == "delete"@ {
        Some(Verb::Delete)
    } else {
        None
    }
}

impl Verb {
    /// The verb that a request word names, if any.
    pub fn parse(w: &String) -> (r: Option<Verb>)
        ensures
            r == spec_verb(w@),
    {
        if *w == String::from_str("start") {
            Some(Verb::Start)
        } else if *w == String::from_str("stop") {
            Some(Verb::Stop)
        } else if *w == String::from_str("restart") {
            Some(Verb::Restart)
        } else if *w == String::from_str("status") {
            Some(Verb::Status)
        } else if *w == String::from_str("backup") {
            Some(Verb::Backup)
        } else if *w == String::from_str("delete") {
            Some(Verb::Delete)
        } else {
            None
        }
    }
}

/// A decoded request.
#[derive(Debug)]
pub enum Request {
    /// The request held no word.
    Empty,
    /// The first word is no verb.
    Unknown,
    /// A verb and the rest of the words joined with single spaces.
    Command(Verb, String),
}

/// Decodes a request from its whitespace-separated words.
pub fn parse_request(words: &Vec<String>) -> (r: Request)
    ensures
        words@.len() == 0 <==> r is Empty,
        words@.len() > 0 ==> match spec_verb(words@[0]@) {
            None => r is Unknown,
            Some(v) => r matches Request::Command(v2, arg) && v2 == v && arg@ == join_words(
                words@.drop_first(),
            ),
        },
{
    if words.len() == 0 {
        return Request::Empty;
    }
    match Verb::parse(&words[0]) {
        None => Request::Unknown,
        Some(v) => {
            let arg = join_from(words, 1);
            assert(words@.subrange(1, words@.len() as int) =~= words@.drop_first());
            Request::Command(v, arg)
        },
    }
}

/// A reply as the command-line client reads it.
#[derive(Debug)]
pub enum Answer {
    Error(String),
    Successfully(Option<String>),
    Data(String),
    Invalid,
}

/// The answer that a reply line made of the words `ws` carries.
pub open spec fn answer_matches(ws: Seq<String>, a: Answer) -> bool {
    if ws.len() == 0 {
        a is Invalid
    } else {
        let rest = join_words(ws.drop_first());
        if ws[0]@ == "error"@ {
            a matches Answer::Error(t) && t@ == rest
        } else if ws[0]@ == "success"@ {
            if ws.len() == 1 {
                a matches Answer::Successfully(None)
            } else {
                a matches Answer::Successfully(Some(t)) && t@ == rest
            }
        } else if ws[0]@ == "data"@ {
            a matches Answer::Data(t) && t@ == rest
        } else {
            a is Invalid
        }
    }
}

/// The text the command-line client prints for an answer.
pub open spec fn answer_text(a: Answer) -> Seq<char> {
    match a {
        Answer::Error(t) => "Error: "@ + t@,
        Answer::Successfully(None) => "Successfully"@,
        Answer::Successfully(Some(t)) => "Successfully: "@ + t@,
        Answer::Data(d) => d@,
        Answer::Invalid => "Invalid"@,
    }
}

impl Answer {
    /// Decodes a reply from its whitespace-separated words.
    pub fn from_words(ws: &Vec<String>) -> (r: Answer)
        ensures
            answer_matches(ws@, r),
    {
        if ws.len() == 0 {
            return Answer::Invalid;
        }
        let rest = join_from(ws, 1);
        assert(ws@.subrange(1, ws@.len() as int) =~= ws@.drop_first());
        if ws[0] == String::from_str("error") {
            Answer::Error(rest)
        } else if ws[0] == String::from_str("success") {
            if ws.len() == 1 {
                Answer::Successfully(None)
            } else {
                Answer::Successfully(Some(rest))
            }
        } else if ws[0] == String::from_str("data") {
            Answer::Data(rest)
        } else {
            Answer::Invalid
        }
    }

    /// The text printed for this answer.
    pub fn to_text(&self) -> (r: String)
        ensures
            r@ == answer_text(*self),
    {
        match self {
            Answer::Error(t) => String::from_str("Error: ").concat(t.as_str()),
            Answer::Successfully(None) => String::from_str("Successfully"),
            Answer::Successfully(Some(t)) => String::from_str("Successfully: ").concat(t.as_str()),
            Answer::Data(d) => d.clone(),
            Answer::Invalid => String::from_str("Invalid"),
        }
    }
}

} // verus!
