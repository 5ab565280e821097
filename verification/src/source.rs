//! The upstream feed: where the JSONL records come from (the SDR# plugin's
//! TCP sink, or a `.jsonl` file replayed for testing), the name the receiver
//! status shows for it, and the records a replay file holds.
//!
//! The connection itself (connect, read, reconnect, sleep between replayed
//! lines) is the program's I/O; what it decides is here.

use crate::model::{string_views, ReceiverStatus};
use crate::state::AppState;
use crate::text::{
    chars_of, concat2, dec_text, decimal, find_chars, first_occurrence, lemma_first_occurrence,
    occurs_at, trim, trimmed,
};
use vstd::prelude::*;

verus! {

/// Where the feed reads from.
#[derive(Clone, Debug)]
pub struct SourceConfig {
    pub host: String,
    pub port: u16,
    /// A `.jsonl` file to replay in place of the TCP sink.
    pub replay: Option<String>,
    /// Pause between replayed records.
    pub replay_interval_ms: u64,
}

/// `host:port`.
pub open spec fn endpoint_text(host: Seq<char>, port: u16) -> Seq<char> {
    host + ":"@ + dec_text(port as nat)
}

/// The name of a source as the receiver status shows it: `replay:FILE` when
/// replaying, else `host:port`.
pub open spec fn source_text(host: Seq<char>, port: u16, replay: Option<Seq<char>>) -> Seq<char> {
    match replay {
        Some(f) => "replay:"@ + f,
        None => endpoint_text(host, port),
    }
}

/// `host:port`, as the receiver status names a TCP source.
pub fn endpoint_label(host: &str, port: u16) -> (res: String)
    ensures
        res@ == endpoint_text(host@, port),
{
    let mut s = concat2(host, ":");
    let p = decimal(port as u64);
    s.append(p.as_str());
    s
}

impl SourceConfig {
    /// The name the receiver status shows for this source.
    pub fn label(&self) -> (res: String)
        ensures
            res@ == source_text(
                self.host@,
                self.port,
                match self.replay {
                    Some(f) => Some(f@),
                    None => None,
                },
            ),
    {
        match &self.replay {
            Some(f) => concat2("replay:", f.as_str()),
            None => endpoint_label(self.host.as_str(), self.port),
        }
    }

    /// The receiver points at a new TCP endpoint: whether `host:port` differs
    /// from the current one (only then does the feed reconnect).
    pub fn endpoint_differs(&self, host: &str, port: u16) -> (res: bool)
        ensures
            res == !(self.host@ == host@ && self.port == port),
    {
        !(crate::text::str_eq(self.host.as_str(), host) && self.port == port)
    }
}

impl AppState {
    /// Names a new TCP endpoint as the receiver's source.
    pub fn point_source(&mut self, host: &str, port: u16)
        ensures
            final(self).receiver.source@ == endpoint_text(host@, port),
            *final(self) == (AppState {
                receiver: (ReceiverStatus { source: final(self).receiver.source, ..old(self).receiver }),
                ..*old(self)
            }),
    {
        self.receiver.source = endpoint_label(host, port);
    }
}

/// A line without the `\r` of a `\r\n` ending.
pub open spec fn strip_cr(l: Seq<char>) -> Seq<char> {
    if l.len() > 0 && l.last() == '\r' {
        l.drop_last()
    } else {
        l
    }
}

/// The lines of a text as `str::lines` yields them: split at each `\n`, the
/// `\r` of a `\r\n` dropped, and no empty line after a final `\n`.
pub open spec fn text_lines(s: Seq<char>) -> Seq<Seq<char>>
    decreases s.len(),
{
    if s.len() == 0 {
        Seq::empty()
    } else {
        match first_occurrence(s, seq!['\n']) {
            Some(i) => if 0 <= i < s.len() {
                seq![strip_cr(s.take(i))] + text_lines(s.skip(i + 1))
            } else {
                seq![s]
            },
            None => seq![s],
        }
    }
}

/// The lines that hold more than whitespace, in order.
pub open spec fn nonblank(ls: Seq<Seq<char>>) -> Seq<Seq<char>>
    decreases ls.len(),
{
    if ls.len() == 0 {
        Seq::empty()
    } else {
        (if trim(ls[0]).len() > 0 {
            seq![ls[0]]
        } else {
            Seq::empty()
        }) + nonblank(ls.drop_first())
    }
}

/// The records of a replay file: its lines that hold more than whitespace,
/// in file order.
pub fn replay_lines(content: &str) -> (res: Vec<String>)
    ensures
        string_views(res@) == nonblank(text_lines(content@)),
{
    let nl = chars_of("\n");
    proof {
        reveal_strlit("\n");
        assert(nl@ =~= seq!['\n']);
    }
    let mut out: Vec<String> = Vec::new();
    let mut rest = content.to_owned();
    loop
        invariant
            nl@ == seq!['\n'],
            nonblank(text_lines(content@)) == string_views(out@) + nonblank(text_lines(rest@)),
        decreases rest@.len(),
    {
        let v = chars_of(rest.as_str());
        if v.len() == 0 {
            assert(text_lines(rest@) =~= Seq::<Seq<char>>::empty());
            assert(string_views(out@) + Seq::<Seq<char>>::empty() =~= string_views(out@));
            return out;
        }
        proof {
            lemma_first_occurrence(v@, nl@);
        }
        let cut = find_chars(&v, &nl);
        let (raw, next) = match cut {
            Some(i) => {
                assert(occurs_at(v@, nl@, i as int));
                assert(i < v.len());
                let raw = rest.as_str().substring_char(0, i).to_owned();
                let next = rest.as_str().substring_char(i + 1, v.len()).to_owned();
                assert(raw@ =~= rest@.take(i as int));
                assert(next@ =~= rest@.skip(i + 1));
                (raw, next)
            },
            None => (rest.clone(), String::new()),
        };
        let rv = chars_of(raw.as_str());
        let line = if cut.is_some() && rv.len() > 0 && rv[rv.len() - 1] == '\r' {
            let l = raw.as_str().substring_char(0, rv.len() - 1).to_owned();
            assert(l@ =~= raw@.drop_last());
            l
        } else {
            raw
        };
        let ghost lines = text_lines(rest@);
        proof {
            match cut {
                Some(i) => {
                    assert(line@ == strip_cr(rest@.take(i as int)));
                    assert(lines == seq![line@] + text_lines(next@));
                },
                None => {
                    assert(line@ == rest@);
                    assert(lines == seq![line@]);
                    assert(text_lines(next@) =~= Seq::<Seq<char>>::empty());
                    assert(lines =~= seq![line@] + text_lines(next@));
                },
            }
            assert(lines[0] == line@);
            assert(lines.drop_first() =~= text_lines(next@));
        }
        let t = trimmed(line.as_str());
        let ghost before = out@;
        if !t.as_str().is_empty() {
            out.push(line);
            assert(string_views(out@) =~= string_views(before) + seq![line@]);
        } else {
            assert(t@.len() == 0);
        }
        assert(nonblank(lines) == (if trim(lines[0]).len() > 0 {
            seq![lines[0]]
        } else {
            Seq::empty()
        }) + nonblank(lines.drop_first()));
        assert(string_views(out@) + nonblank(text_lines(next@)) =~= string_views(before) + nonblank(
            lines,
        ));
        proof {
            match cut {
                Some(i) => assert(next@.len() < rest@.len()),
                None => {},
            }
        }
        if cut.is_none() {
            assert(nonblank(text_lines(next@)) =~= Seq::<Seq<char>>::empty());
            assert(string_views(out@) + Seq::<Seq<char>>::empty() =~= string_views(out@));
            return out;
        }
        rest = next;
    }
}

} // verus!
