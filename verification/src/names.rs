//! Splitting slash-separated names: full paths into directory prefix and
//! entry name, and namespaced reference names into their short form.

use vstd::prelude::*;
use vstd::string::StrSliceExecFns;

verus! {

/// The suffix of `s` that follows its last `'/'`; all of `s` when no `'/'`
/// occurs in it.
pub open spec fn tail_after_last_slash(s: Seq<char>) -> Seq<char>
    decreases s.len(),
{
    if s.len() == 0 {
        s
    } else if s.last() == '/' {
        Seq::empty()
    } else {
        tail_after_last_slash(s.drop_last()).push(s.last())
    }
}

/// The suffix that follows the last slash holds no slash itself.
pub proof fn lemma_tail_has_no_slash(s: Seq<char>)
    ensures
        forall|i: int|
            0 <= i < tail_after_last_slash(s).len() ==> #[trigger] tail_after_last_slash(s)[i]
                != '/',
    decreases s.len(),
{
    if s.len() > 0 && s.last() != '/' {
        let pre = s.drop_last();
        lemma_tail_has_no_slash(pre);
        assert forall|i: int|
            0 <= i < tail_after_last_slash(s).len() implies #[trigger] tail_after_last_slash(
            s,
        )[i] != '/' by {
            if i < tail_after_last_slash(pre).len() {
                assert(tail_after_last_slash(s)[i] == tail_after_last_slash(pre)[i]);
            } else {
                assert(tail_after_last_slash(s)[i] == s.last());
            }
        }
    }
}

/// Splits `s` at its last `'/'`: the first part runs up to and including that
/// slash, the second is the rest. With no slash the first part is empty.
/// The two parts always concatenate back to `s`.
pub fn split_at_last_slash(s: &str) -> (r: (String, String))
    ensures
        r.0@ + r.1@ == s@,
        r.1@ == tail_after_last_slash(s@),
        r.0@.len() > 0 ==> r.0@.last() == '/',
{
    let len = s.unicode_len();
    let mut i: usize = 0;
    let mut cut: usize = 0;
    while i < len
        invariant
            cut <= i <= len == s@.len(),
            tail_after_last_slash(s@.subrange(0, i as int)) == s@.subrange(cut as int, i as int),
            cut > 0 ==> s@[cut - 1] == '/',
        decreases len - i,
    {
        let c = s.get_char(i);
        proof {
            assert(s@.subrange(0, i + 1).drop_last() =~= s@.subrange(0, i as int));
            assert(s@.subrange(0, i + 1).last() == s@[i as int]);
        }
        if c == '/' {
            cut = i + 1;
            proof {
                assert(tail_after_last_slash(s@.subrange(0, i + 1)) =~= s@.subrange(
                    cut as int,
                    i + 1,
                ));
            }
        } else {
            proof {
                assert(tail_after_last_slash(s@.subrange(0, i + 1)) =~= s@.subrange(
                    cut as int,
                    i + 1,
                ));
            }
        }
        i += 1;
    }
    proof {
        assert(s@.subrange(0, len as int) =~= s@);
    }
    let prefix = s.substring_char(0, cut).to_owned();
    let name = s.substring_char(cut, len).to_owned();
    proof {
        assert(prefix@ + name@ =~= s@);
    }
    (prefix, name)
}

} // verus!
