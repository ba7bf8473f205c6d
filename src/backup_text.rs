use vstd::prelude::*;

use crate::backup::{Backup, BackupProcess};
use crate::processes::{Ecosystem, LogsMode, RestartMode};
use crate::status::{decimal, decimal_string};
use vstd::utf8::encode_utf8;

verus! {

/// One byte as it stands inside a quoted string: `"` and `\` are escaped.
pub open spec fn escape_byte(c: u8) -> Seq<u8> {
    if c == 34 || c == 92 {
        seq![92u8, c]
    } else {
        seq![c]
    }
}

pub open spec fn escape(b: Seq<u8>) -> Seq<u8>
    decreases b.len(),
{
    if b.len() == 0 {
        Seq::empty()
    } else {
        escape(b.drop_last()) + escape_byte(b.last())
    }
}

/// A text as a quoted string.
pub open spec fn quoted(s: Seq<char>) -> Seq<u8> {
    seq![34u8] + escape(encode_utf8(s)) + seq![34u8]
}

/// The bytes of a plain text.
pub open spec fn bytes_of(s: Seq<char>) -> Seq<u8> {
    encode_utf8(s)
}

fn push_all(out: &mut Vec<u8>, b: &[u8])
    ensures
        final(out)@ == old(out)@ + b@,
{
    let mut i: usize = 0;
    while i < b.len()
        invariant
            i <= b@.len(),
            out@ == old(out)@ + b@.subrange(0, i as int),
        decreases b.len() - i,
    {
        out.push(b[i]);
        i = i + 1;
        assert(out@ =~= old(out)@ + b@.subrange(0, i as int));
    }
    assert(b@.subrange(0, b@.len() as int) =~= b@);
}

fn push_text(out: &mut Vec<u8>, s: &str)
    ensures
        final(out)@ == old(out)@ + bytes_of(s@),
{
    push_all(out, s.as_bytes());
}

fn push_quoted(out: &mut Vec<u8>, s: &String)
    ensures
        final(out)@ == old(out)@ + quoted(s@),
{
    let b = s.as_str().as_bytes();
    let ghost start = out@;
    out.push(34);
    let mut i: usize = 0;
    while i < b.len()
        invariant
            i <= b@.len(),
            b@ == encode_utf8(s@),
            out@ == start + seq![34u8] + escape(b@.subrange(0, i as int)),
        decreases b.len() - i,
    {
        let c = b[i];
        assert(b@.subrange(0, i + 1).drop_last() =~= b@.subrange(0, i as int));
        if c == 34 || c == 92 {
            out.push(92);
        }
        out.push(c);
        i = i + 1;
        assert(out@ =~= start + seq![34u8] + escape(b@.subrange(0, i as int)));
    }
    assert(b@.subrange(0, b@.len() as int) =~= b@);
    out.push(34);
    assert(out@ =~= start + quoted(s@));
}

pub open spec fn restart_label(m: RestartMode) -> Seq<char> {
    match m {
        RestartMode::Never => "never"@,
        RestartMode::Always => "always"@,
        RestartMode::OnError => "on_error"@,
    }
}

pub open spec fn logs_label(m: LogsMode) -> Seq<char> {
    match m {
        LogsMode::Override => "override"@,
        LogsMode::Append => "append"@,
    }
}

impl RestartMode {
    /// The name of this policy in configuration files.
    pub fn label(&self) -> (r: &'static str)
        ensures
            r@ == restart_label(*self),
    {
        match self {
            RestartMode::Never => "never",
            RestartMode::Always => "always",
            RestartMode::OnError => "on_error",
        }
    }
}

impl LogsMode {
    /// The name of this mode in configuration files.
    pub fn label(&self) -> (r: &'static str)
        ensures
            r@ == logs_label(*self),
    {
        match self {
            LogsMode::Override => "override",
            LogsMode::Append => "append",
        }
    }
}

/// Quoted strings separated by `, `.
pub open spec fn quoted_list(ws: Seq<String>) -> Seq<u8>
    decreases ws.len(),
{
    if ws.len() == 0 {
        Seq::empty()
    } else if ws.len() == 1 {
        quoted(ws[0]@)
    } else {
        quoted_list(ws.drop_last()) + bytes_of(", "@) + quoted(ws.last()@)
    }
}

pub open spec fn opt_text_field(key: Seq<char>, v: Option<String>) -> Seq<u8> {
    match v {
        Some(t) => bytes_of(key) + quoted(t@),
        None => Seq::empty(),
    }
}

pub open spec fn eco_head(e: Ecosystem) -> Seq<u8> {
    bytes_of("ecosystem = { title="@) + quoted(e.title@) + bytes_of(", start="@) + quoted(e.start@)
        + bytes_of(", shell="@) + quoted(e.shell@)
}

pub open spec fn eco_restart(e: Ecosystem) -> Seq<u8> {
    match e.restart {
        Some(m) => bytes_of(", restart="@) + quoted(restart_label(m)),
        None => Seq::empty(),
    }
}

pub open spec fn eco_logs_mode(e: Ecosystem) -> Seq<u8> {
    match e.logs_mode {
        Some(m) => bytes_of(", logs_mode="@) + quoted(logs_label(m)),
        None => Seq::empty(),
    }
}

pub open spec fn eco_watch(e: Ecosystem) -> Seq<u8> {
    match e.watch {
        Some(w) => bytes_of(", watch=["@) + quoted_list(w@) + bytes_of("]"@),
        None => Seq::empty(),
    }
}

/// A configuration as an inline table.
pub open spec fn ecosystem_text(e: Ecosystem) -> Seq<u8> {
    eco_head(e) + opt_text_field(", description="@, e.description) + eco_restart(e)
        + opt_text_field(", logs="@, e.logs) + eco_logs_mode(e) + eco_watch(e) + bytes_of(" }"@)
}

fn push_opt_text(out: &mut Vec<u8>, key: &str, v: &Option<String>)
    ensures
        final(out)@ == old(out)@ + opt_text_field(key@, *v),
{
    match v {
        Some(t) => {
            push_text(out, key);
            push_quoted(out, t);
            assert(final(out)@ =~= old(out)@ + opt_text_field(key@, *v));
        },
        None => {
            assert(out@ =~= old(out)@ + opt_text_field(key@, *v));
        },
    }
}

fn push_quoted_list(out: &mut Vec<u8>, ws: &Vec<String>)
    ensures
        final(out)@ == old(out)@ + quoted_list(ws@),
{
    let ghost start = out@;
    let mut i: usize = 0;
    assert(ws@.subrange(0, 0).len() == 0);
    assert(out@ =~= start + quoted_list(ws@.subrange(0, 0)));
    while i < ws.len()
        invariant
            i <= ws@.len(),
            out@ == start + quoted_list(ws@.subrange(0, i as int)),
        decreases ws.len() - i,
    {
        assert(ws@.subrange(0, i + 1).drop_last() =~= ws@.subrange(0, i as int));
        if i > 0 {
            push_text(out, ", ");
        }
        push_quoted(out, &ws[i]);
        i = i + 1;
        assert(out@ =~= start + quoted_list(ws@.subrange(0, i as int)));
    }
    assert(ws@.subrange(0, ws@.len() as int) =~= ws@);
}

impl Ecosystem {
    fn write_head(&self, out: &mut Vec<u8>)
        ensures
            final(out)@ == old(out)@ + eco_head(*self),
    {
        let ghost start = out@;
        push_text(out, "ecosystem = { title=");
        push_quoted(out, &self.title);
        push_text(out, ", start=");
        push_quoted(out, &self.start);
        push_text(out, ", shell=");
        push_quoted(out, &self.shell);
        assert(out@ =~= start + eco_head(*self));
    }

    fn write_modes(&self, out: &mut Vec<u8>)
        ensures
            final(out)@ == old(out)@ + eco_restart(*self) + opt_text_field(", logs="@, self.logs)
                + eco_logs_mode(*self),
    {
        let ghost start = out@;
        match &self.restart {
            Some(m) => {
                push_text(out, ", restart=");
                push_quoted(out, &String::from_str(m.label()));
            },
            None => {},
        }
        assert(out@ =~= start + eco_restart(*self));
        let ghost b = out@;
        push_opt_text(out, ", logs=", &self.logs);
        let ghost c = out@;
        match &self.logs_mode {
            Some(m) => {
                push_text(out, ", logs_mode=");
                push_quoted(out, &String::from_str(m.label()));
            },
            None => {},
        }
        assert(out@ =~= c + eco_logs_mode(*self));
        assert(out@ =~= start + eco_restart(*self) + opt_text_field(", logs="@, self.logs)
            + eco_logs_mode(*self));
    }

    fn write_watch(&self, out: &mut Vec<u8>)
        ensures
            final(out)@ == old(out)@ + eco_watch(*self),
    {
        let ghost start = out@;
        match &self.watch {
            Some(w) => {
                push_text(out, ", watch=[");
                push_quoted_list(out, w);
                push_text(out, "]");
            },
            None => {},
        }
        assert(out@ =~= start + eco_watch(*self));
    }

    /// Appends this configuration, as an inline table, to `out`.
    pub fn write_text(&self, out: &mut Vec<u8>)
        ensures
            final(out)@ == old(out)@ + ecosystem_text(*self),
    {
        let ghost start = out@;
        self.write_head(out);
        push_opt_text(out, ", description=", &self.description);
        self.write_modes(out);
        self.write_watch(out);
        push_text(out, " }");
        assert(out@ =~= start + ecosystem_text(*self));
    }
}

/// One record as a table of the `process` array.
pub open spec fn record_text(r: BackupProcess) -> Seq<u8> {
    bytes_of("\n[[process]]\nid="@) + bytes_of(decimal(r.id as nat)) + bytes_of("\npath="@) + quoted(
        r.path@,
    ) + bytes_of("\nshould_stop="@) + bytes_of(
        if r.should_stop {
            "true"@
        } else {
            "false"@
        },
    ) + bytes_of("\n"@) + ecosystem_text(r.ecosystem)
}

/// The records of `ps`, one after another.
pub open spec fn records_text(ps: Seq<BackupProcess>) -> Seq<u8>
    decreases ps.len(),
{
    if ps.len() == 0 {
        Seq::empty()
    } else {
        records_text(ps.drop_last()) + record_text(ps.last())
    }
}

/// The backup file: the maximum-identifier marker, then every record.
pub open spec fn backup_text(b: Backup) -> Seq<u8> {
    bytes_of("max_id = "@) + bytes_of(decimal(b.max_id as nat)) + records_text(b.process@)
}

impl BackupProcess {
    /// Appends this record to `out`.
    pub fn write_text(&self, out: &mut Vec<u8>)
        ensures
            final(out)@ == old(out)@ + record_text(*self),
    {
        let ghost start = out@;
        push_text(out, "\n[[process]]\nid=");
        push_text(out, decimal_string(self.id).as_str());
        push_text(out, "\npath=");
        push_quoted(out, &self.path);
        push_text(out, "\nshould_stop=");
        if self.should_stop {
            push_text(out, "true");
        } else {
            push_text(out, "false");
        }
        push_text(out, "\n");
        self.ecosystem.write_text(out);
        assert(out@ =~= start + record_text(*self));
    }
}

impl Backup {
    /// The whole backup file.
    pub fn to_text(&self) -> (r: Vec<u8>)
        ensures
            r@ == backup_text(*self),
    {
        let mut out: Vec<u8> = Vec::new();
        push_text(&mut out, "max_id = ");
        push_text(&mut out, decimal_string(self.max_id).as_str());
        let ghost head = out@;
        let mut i: usize = 0;
        assert(self.process@.subrange(0, 0).len() == 0);
        assert(out@ =~= head + records_text(self.process@.subrange(0, 0)));
        while i < self.process.len()
            invariant
                i <= self.process@.len(),
                out@ == head + records_text(self.process@.subrange(0, i as int)),
                head == bytes_of("max_id = "@) + bytes_of(decimal(self.max_id as nat)),
            decreases self.process.len() - i,
        {
            assert(self.process@.subrange(0, i + 1).drop_last() =~= self.process@.subrange(0, i as int));
            self.process[i].write_text(&mut out);
            i = i + 1;
            assert(out@ =~= head + records_text(self.process@.subrange(0, i as int)));
        }
        assert(self.process@.subrange(0, self.process@.len() as int) =~= self.process@);
        out
    }
}

} // verus!
