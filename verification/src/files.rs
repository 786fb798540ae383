//! File-name sanitizing: removing path-traversal fragments and separators
//! from an uploaded file's name.

use vstd::prelude::*;
use vstd::string::StrSliceExecFns;

verus! {

/// The string with every leftmost, non-overlapping occurrence of `pat`
/// removed, scanning left to right, as a replacement by the empty string
/// does.
pub open spec fn spec_remove_all(s: Seq<char>, pat: Seq<char>) -> Seq<char>
    decreases s.len(),
{
    if pat.len() == 0 || s.len() < pat.len() {
        s
    } else if s.take(pat.len() as int) == pat {
        spec_remove_all(s.skip(pat.len() as int), pat)
    } else {
        seq![s[0]] + spec_remove_all(s.drop_first(), pat)
    }
}

/// The sanitized file name: "..", then "/", then "\" occurrences removed.
pub open spec fn spec_sanitize_file_name(s: Seq<char>) -> Seq<char> {
    spec_remove_all(spec_remove_all(spec_remove_all(s, ".."@), "/"@), "\\"@)
}

/// Whether `pat` occurs in `s` at character position `i`.
fn match_at(s: &str, len: usize, pat: &str, plen: usize, i: usize) -> (b: bool)
    requires
        len == s@.len(),
        plen == pat@.len(),
        i + plen <= len,
    ensures
        b == (s@.subrange(i as int, i + plen) == pat@),
{
    let mut j: usize = 0;
    while j < plen
        invariant
            0 <= j <= plen,
            len == s@.len(),
            plen == pat@.len(),
            i + plen <= len,
            forall|k: int| 0 <= k < j ==> s@[i + k] == pat@[k],
        decreases plen - j,
    {
        if s.get_char(i + j) != pat.get_char(j) {
            proof {
                assert(s@.subrange(i as int, i + plen)[j as int] != pat@[j as int]);
            }
            return false;
        }
        j += 1;
    }
    proof {
        assert(s@.subrange(i as int, i + plen) =~= pat@);
    }
    true
}

/// Remove every leftmost occurrence of `pat` from `s`.
fn remove_all(s: &str, pat: &str) -> (r: String)
    requires
        pat@.len() > 0,
    ensures
        r@ == spec_remove_all(s@, pat@),
{
    let len = s.unicode_len();
    let plen = pat.unicode_len();
    let mut out = String::new();
    let mut i: usize = 0;
    proof {
        assert(s@.skip(0) =~= s@);
        assert(Seq::<char>::empty() + spec_remove_all(s@, pat@) =~= spec_remove_all(s@, pat@));
    }
    while i <= len && plen <= len - i
        invariant
            0 <= i <= len,
            len == s@.len(),
            plen == pat@.len(),
            plen > 0,
            spec_remove_all(s@, pat@) == out@ + spec_remove_all(s@.skip(i as int), pat@),
        decreases len - i,
    {
        let ghost rest = s@.skip(i as int);
        proof {
            assert(rest.take(plen as int) =~= s@.subrange(i as int, i + plen));
        }
        if match_at(s, len, pat, plen, i) {
            proof {
                assert(rest.skip(plen as int) =~= s@.skip(i + plen));
            }
            i += plen;
        } else {
            let ghost obefore = out@;
            let piece = s.substring_char(i, i + 1);
            out.append(piece);
            proof {
                assert(piece@ =~= seq![s@[i as int]]);
                assert(rest[0] == s@[i as int]);
                assert(rest.drop_first() =~= s@.skip(i + 1));
                assert(spec_remove_all(rest, pat@) == seq![s@[i as int]] + spec_remove_all(
                    s@.skip(i + 1),
                    pat@,
                ));
                assert(obefore + (seq![s@[i as int]] + spec_remove_all(s@.skip(i + 1), pat@))
                    =~= (obefore + seq![s@[i as int]]) + spec_remove_all(s@.skip(i + 1), pat@));
            }
            i += 1;
        }
    }
    let tail = s.substring_char(i, len);
    out.append(tail);
    proof {
        assert(tail@ =~= s@.skip(i as int));
        assert(s@.skip(i as int).len() < plen);
        assert(spec_remove_all(s@.skip(i as int), pat@) == s@.skip(i as int));
    }
    out
}

/// Sanitize a file name by removing "..", "/" and "\" so it cannot step
/// outside its directory.
pub fn sanitize_file_name(file_name: &str) -> (r: String)
    ensures
        r@ == spec_sanitize_file_name(file_name@),
{
    proof {
        reveal_strlit("..");
        reveal_strlit("/");
        reveal_strlit("\\");
    }
    let step1 = remove_all(file_name, "..");
    let step2 = remove_all(step1.as_str(), "/");
    remove_all(step2.as_str(), "\\")
}

} // verus!
