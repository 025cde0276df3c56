//! The startup connectivity probe's verdict. The radio-node program is
//! run outside the library; what its output means — an error anywhere,
//! or the connected sentinel on the first line — is decided here.

use vstd::prelude::*;
use vstd::string::StrSliceExecFns;

use crate::text::contains_seq;
use crate::text::str_contains;
use crate::text::str_eq;

verus! {

/// The first line of a text: everything before the first line break,
/// without a carriage return at its end.
pub open spec fn first_line_spec(s: Seq<char>) -> Seq<char> {
    let cut = line_cut(s);
    if cut > 0 && s[cut - 1] == '\r' {
        s.subrange(0, cut - 1)
    } else {
        s.subrange(0, cut)
    }
}

/// Where the first line ends: the index of the first line break, or the
/// text's length.
pub open spec fn line_cut(s: Seq<char>) -> int
    decreases s.len(),
{
    if s.len() == 0 {
        0
    } else if s[0] == '\n' {
        0
    } else {
        1 + line_cut(s.drop_first())
    }
}

proof fn lemma_line_cut_index(s: Seq<char>, k: int)
    requires
        0 <= k <= s.len(),
        forall|i: int| 0 <= i < k ==> s[i] != '\n',
        k < s.len() ==> s[k] == '\n',
    ensures
        line_cut(s) == k,
    decreases k,
{
    if k == 0 {
        if s.len() > 0 {
            assert(s[0] == '\n');
        }
    } else {
        let t = s.drop_first();
        assert(forall|i: int| 0 <= i < k - 1 ==> t[i] != '\n');
        lemma_line_cut_index(t, k - 1);
    }
}

/// The probe passed: the program's output names no error, and its
/// first line is the connected sentinel.
pub open spec fn probe_ok_spec(stdout: Seq<char>) -> bool {
    !contains_seq(stdout, "Error"@) && first_line_spec(stdout) == "Connected to radio"@
}

/// Decides the startup connectivity probe from the program's output.
pub fn probe_verdict(stdout: &str) -> (r: bool)
    ensures
        r == probe_ok_spec(stdout@),
{
    if str_contains(stdout, "Error") {
        return false;
    }
    let n = stdout.unicode_len();
    let mut k: usize = 0;
    while k < n && line_break_at(stdout, k)
        invariant
            n == stdout@.len(),
            0 <= k <= n,
            forall|i: int| 0 <= i < k ==> stdout@[i] != '\n',
        decreases n - k,
    {
        k += 1;
    }
    proof {
        lemma_line_cut_index(stdout@, k as int);
    }
    let cut = if k > 0 && stdout.get_char(k - 1) == '\r' {
        k - 1
    } else {
        k
    };
    let line = stdout.substring_char(0, cut);
    str_eq(line, "Connected to radio")
}

fn line_break_at(s: &str, i: usize) -> (r: bool)
    requires
        i < s@.len(),
    ensures
        r == (s@[i as int] != '\n'),
{
    s.get_char(i) != '\n'
}

} // verus!
