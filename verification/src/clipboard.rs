//! The client's clipboard watch: a value that the client sets itself (from
//! the server) is not sent back. Each such value is counted, and as many
//! change notices are skipped. On X11 a change is first cut of its NULs and
//! surrounding white space, and an empty one is ignored.

use vstd::prelude::*;

verus! {

/// Whether `c` is white space in the sense of the Unicode property
/// `White_Space`.
pub open spec fn is_white_space(c: char) -> bool {
    let u = c as u32;
    ||| 0x9 <= u <= 0xD
    ||| u == 0x20
    ||| u == 0x85
    ||| u == 0xA0
    ||| u == 0x1680
    ||| 0x2000 <= u <= 0x200A
    ||| u == 0x2028
    ||| u == 0x2029
    ||| u == 0x202F
    ||| u == 0x205F
    ||| u == 0x3000
}

/// Whether `c` is NUL.
pub open spec fn is_nul(c: char) -> bool {
    c == '\u{0}'
}

/// How many characters at the start of `s` satisfy `p`.
pub open spec fn leading(s: Seq<char>, p: spec_fn(char) -> bool) -> nat
    decreases s.len(),
{
    if s.len() > 0 && p(s[0]) {
        1 + leading(s.drop_first(), p)
    } else {
        0
    }
}

/// How many characters at the end of `s` satisfy `p`.
pub open spec fn trailing(s: Seq<char>, p: spec_fn(char) -> bool) -> nat
    decreases s.len(),
{
    if s.len() > 0 && p(s.last()) {
        1 + trailing(s.drop_last(), p)
    } else {
        0
    }
}

/// `s` without the characters satisfying `p` at its start and at its end.
pub open spec fn trim_by(s: Seq<char>, p: spec_fn(char) -> bool) -> Seq<char> {
    if leading(s, p) >= s.len() {
        Seq::empty()
    } else {
        s.subrange(leading(s, p) as int, s.len() - trailing(s, p))
    }
}

/// Calls `str::trim_matches` with the character `c` as pattern: the
/// contract claims, as its documentation says, that the `c`s at the start
/// and at the end are removed.
#[verifier::external_body]
fn trim_char(s: &str, c: char) -> (r: &str)
    ensures
        r@ == trim_by(s@, |x: char| x == c),
{
    s.trim_matches(c)
}

/// Calls `str::trim`: the contract claims, as its documentation says, that
/// the white space (Unicode `White_Space`) at the start and at the end is
/// removed.
#[verifier::external_body]
fn trim_white_space(s: &str) -> (r: &str)
    ensures
        r@ == trim_by(s@, |c: char| is_white_space(c)),
{
    s.trim()
}

/// The text that an X11 clipboard change stands for: its NULs, then its
/// white space, cut at both ends.
pub open spec fn clipboard_text(s: Seq<char>) -> Seq<char> {
    trim_by(trim_by(s, |c: char| is_nul(c)), |c: char| is_white_space(c))
}

/// A notice of text `t` with `skip` notices to skip: the count after it,
/// and the text sent, if any.
pub open spec fn echo_step(skip: u32, t: Seq<char>) -> (u32, Option<Seq<char>>) {
    if t.len() == 0 {
        (skip, None)
    } else if skip > 0 {
        ((skip - 1) as u32, None)
    } else {
        (0, Some(t))
    }
}

/// The notices of the texts `ts`, in order, from `skip`: the count after
/// them, and the texts sent.
pub open spec fn echo_fold(skip: u32, ts: Seq<Seq<char>>) -> (u32, Seq<Seq<char>>)
    decreases ts.len(),
{
    if ts.len() == 0 {
        (skip, Seq::empty())
    } else {
        let (s1, sent) = echo_fold(skip, ts.drop_last());
        let (s2, o) = echo_step(s1, ts.last());
        (
            s2,
            match o {
                Some(x) => sent.push(x),
                None => sent,
            },
        )
    }
}

/// The values that the client sets itself are not sent back: after `k`
/// of them, the next `k` notices of a non-empty text send nothing, and the
/// count is spent by as many.
pub proof fn lemma_own_values_not_echoed(k: u32, ts: Seq<Seq<char>>)
    requires
        ts.len() <= k,
        forall|i: int| 0 <= i < ts.len() ==> #[trigger] ts[i].len() > 0,
    ensures
        echo_fold(k, ts) == ((k - ts.len()) as u32, Seq::<Seq<char>>::empty()),
    decreases ts.len(),
{
    if ts.len() > 0 {
        let p = ts.drop_last();
        assert forall|i: int| 0 <= i < p.len() implies #[trigger] p[i].len() > 0 by {
            assert(p[i] == ts[i]);
        }
        lemma_own_values_not_echoed(k, p);
        assert(ts.last() == ts[ts.len() - 1]);
    }
}

/// The count of the values that the client set itself and whose change
/// notices are still to come.
pub struct ClipboardEcho {
    skip: u32,
}

impl ClipboardEcho {
    /// Notices still to skip.
    pub closed spec fn spec_skip(&self) -> u32 {
        self.skip
    }

    /// Nothing to skip.
    pub fn new() -> (e: Self)
        ensures
            e.spec_skip() == 0,
    {
        ClipboardEcho { skip: 0 }
    }

    /// Notices still to skip.
    pub fn skip(&self) -> (n: u32)
        ensures
            n == self.spec_skip(),
    {
        self.skip
    }

    /// The client sets the clipboard itself: one more notice to skip.
    pub fn set_by_client(&mut self)
        requires
            old(self).spec_skip() < u32::MAX,
        ensures
            final(self).spec_skip() == old(self).spec_skip() + 1,
    {
        self.skip = self.skip + 1;
    }

    /// A notice of the X11 clipboard, of value `value`: the text to send,
    /// if any. An empty text is ignored; else a notice is skipped while some
    /// are to be skipped.
    pub fn on_x11_change(&mut self, value: &str) -> (r: Option<String>)
        ensures
            ({
                let t = clipboard_text(value@);
                &&& t.len() == 0 ==> r is None && final(self).spec_skip() == old(self).spec_skip()
                &&& t.len() > 0 && old(self).spec_skip() > 0 ==> r is None
                    && final(self).spec_skip() == old(self).spec_skip() - 1
                &&& t.len() > 0 && old(self).spec_skip() == 0 ==> (r matches Some(s) && s@ == t)
                    && final(self).spec_skip() == 0
                &&& final(self).spec_skip() == echo_step(old(self).spec_skip(), t).0
                &&& echo_step(old(self).spec_skip(), t).1 == match r {
                    Some(s) => Some(s@),
                    None => None::<Seq<char>>,
                }
            }),
    {
        let t0 = trim_char(value, '\u{0}');
        proof {
            assert((|x: char| x == '\u{0}') =~= (|c: char| is_nul(c)));
        }
        let t = trim_white_space(t0);
        if t.unicode_len() == 0 {
            return None;
        }
        if self.skip > 0 {
            self.skip = self.skip - 1;
            return None;
        }
        Some(t.to_string())
    }

    /// A notice of the Windows clipboard, of value `value`: the value to
    /// send, unless a notice is to be skipped.
    pub fn on_windows_change(&mut self, value: String) -> (r: Option<String>)
        ensures
            old(self).spec_skip() > 0 ==> r is None && final(self).spec_skip() == old(self).spec_skip() - 1,
            old(self).spec_skip() == 0 ==> r == Some(value) && final(self).spec_skip() == 0,
    {
        if self.skip > 0 {
            self.skip = self.skip - 1;
            None
        } else {
            Some(value)
        }
    }
}

/// The last of the values `values` that the watch sent, if any: the one
/// taken at the next round.
pub fn last_clipboard_value(values: Vec<String>) -> (r: Option<String>)
    ensures
        values@.len() == 0 ==> r is None,
        values@.len() > 0 ==> r == Some(values@.last()),
{
    let mut values = values;
    values.pop()
}

} // verus!
