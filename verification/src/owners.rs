use vstd::prelude::*;

verus! {

/// The position of the first `:` in `s`, or the length of `s` where it
/// holds none.
pub open spec fn first_colon(s: Seq<char>) -> int
    decreases s.len(),
{
    if s.len() == 0 {
        0
    } else if s[0] == ':' {
        0
    } else {
        1 + first_colon(s.drop_first())
    }
}

/// Whether `s` holds no `:`.
pub open spec fn no_colon(s: Seq<char>) -> bool {
    forall|i: int| 0 <= i < s.len() ==> s[i] != ':'
}

/// The owner's name in `name:share`: what stands before the first `:`.
pub open spec fn owner_part(s: Seq<char>) -> Seq<char> {
    s.take(first_colon(s))
}

/// The share in `name:share`: what stands between the first `:` and the
/// next one (or the end).
pub open spec fn share_part(s: Seq<char>) -> Seq<char> {
    let rest = s.skip(first_colon(s) + 1);
    rest.take(first_colon(rest))
}

/// `first_colon` is the position that no earlier `:` precedes and that
/// holds a `:` or is the end.
pub proof fn lemma_first_colon(s: Seq<char>, k: int)
    requires
        0 <= k <= s.len(),
        forall|j: int| 0 <= j < k ==> s[j] != ':',
        k == s.len() || s[k] == ':',
    ensures
        first_colon(s) == k,
    decreases k,
{
    if k > 0 {
        assert forall|j: int| 0 <= j < k - 1 implies s.drop_first()[j] != ':' by {
            assert(s.drop_first()[j] == s[j + 1]);
        }
        if k < s.len() {
            assert(s.drop_first()[k - 1] == s[k]);
        }
        lemma_first_colon(s.drop_first(), k - 1);
    }
}

/// `first_colon` lies within the string.
pub proof fn lemma_first_colon_bounds(s: Seq<char>)
    ensures
        0 <= first_colon(s) <= s.len(),
        first_colon(s) < s.len() ==> s[first_colon(s)] == ':',
        forall|j: int| 0 <= j < first_colon(s) ==> s[j] != ':',
    decreases s.len(),
{
    if s.len() > 0 && s[0] != ':' {
        lemma_first_colon_bounds(s.drop_first());
        assert forall|j: int| 0 <= j < first_colon(s) implies s[j] != ':' by {
            if j > 0 {
                assert(s[j] == s.drop_first()[j - 1]);
            }
        }
    }
}

/// The position of the first `:` at or after `from`, or `len` where there
/// is none.
fn colon_from(s: &str, from: usize, len: usize) -> (k: usize)
    requires
        len == s@.len(),
        from <= len,
    ensures
        from <= k <= len,
        k - from == first_colon(s@.skip(from as int)),
{
    let mut k = from;
    while k < len
        invariant
            len == s@.len(),
            from <= k <= len,
            forall|j: int| from <= j < k ==> s@[j] != ':',
        ensures
            from <= k <= len,
            forall|j: int| from <= j < k ==> s@[j] != ':',
            k == len || s@[k as int] == ':',
        decreases len - k,
    {
        if s.get_char(k) == ':' {
            break;
        }
        k = k + 1;
    }
    proof {
        let t = s@.skip(from as int);
        assert forall|j: int| 0 <= j < k - from implies t[j] != ':' by {
            assert(t[j] == s@[from + j]);
        }
        if k < len {
            assert(t[k - from] == s@[k as int]);
        }
        lemma_first_colon(t, k - from);
    }
    k
}

/// Splits an owner given as `name:share` into its name and its share, as
/// text.
///
/// The share is what stands between the first `:` and the next one, or the
/// end; reading it as a number is left to the caller.
pub fn ownsplit(ownstring: String) -> (r: (String, String))
    requires
        ownstring@.contains(':'),
    ensures
        r.0@ == owner_part(ownstring@),
        r.1@ == share_part(ownstring@),
{
    let s = ownstring.as_str();
    let len = s.unicode_len();
    let k = colon_from(s, 0, len);
    proof {
        assert(s@.skip(0) =~= s@);
        lemma_first_colon_bounds(s@);
        let i = choose|i: int| 0 <= i < s@.len() && s@[i] == ':';
        if k == len {
            assert(s@[i] != ':');
        }
    }
    let name = s.substring_char(0, k).to_owned();
    let e = colon_from(s, k + 1, len);
    let share = s.substring_char(k + 1, e).to_owned();
    proof {
        let rest = s@.skip(k + 1);
        lemma_first_colon_bounds(rest);
        assert(share@ =~= rest.take(first_colon(rest)));
        assert(name@ =~= s@.take(first_colon(s@)));
    }
    (name, share)
}

/// An owner written as `name:share`, with a name and a share that hold no
/// `:`, splits back into that name and that share.
pub proof fn law_ownsplit_roundtrip(name: Seq<char>, share: Seq<char>)
    requires
        no_colon(name),
        no_colon(share),
    ensures
        owner_part(name + seq![':'] + share) == name,
        share_part(name + seq![':'] + share) == share,
{
    let s = name + seq![':'] + share;
    lemma_first_colon(s, name.len() as int);
    let rest = s.skip(name.len() as int + 1);
    assert(rest =~= share);
    lemma_first_colon(rest, share.len() as int);
    assert(s.take(name.len() as int) =~= name);
    assert(rest.take(share.len() as int) =~= share);
}

} // verus!
