use vstd::prelude::*;

verus! {

/// A path separator in a submodule name: a forward or a backward slash.
pub open spec fn is_separator(c: char) -> bool {
    c == '/' || c == '\\'
}

/// The short display name of a submodule: what follows the last separator,
/// or the whole name when it holds none.
pub open spec fn display_name_of(s: Seq<char>) -> Seq<char>
    decreases s.len(),
{
    if s.len() == 0 {
        s
    } else if is_separator(s.last()) {
        Seq::empty()
    } else {
        display_name_of(s.drop_last()).push(s.last())
    }
}

/// When `start` follows the last separator of `s` (or is 0 and `s` has none
/// before it), the display name is the tail of `s` from `start`.
proof fn lemma_display_name_from(s: Seq<char>, start: int)
    requires
        0 <= start <= s.len(),
        start == 0 || is_separator(s[start - 1]),
        forall|j: int| start <= j < s.len() ==> !is_separator(#[trigger] s[j]),
    ensures
        display_name_of(s) == s.subrange(start, s.len() as int),
    decreases s.len(),
{
    if s.len() == 0 {
        assert(s.subrange(start, 0) =~= s);
    } else if start == s.len() {
        assert(is_separator(s.last()));
        assert(s.subrange(start, s.len() as int) =~= Seq::<char>::empty());
    } else {
        let t = s.drop_last();
        assert forall|j: int| start <= j < t.len() implies !is_separator(#[trigger] t[j]) by {
            assert(t[j] == s[j]);
        }
        if start > 0 {
            assert(t[start - 1] == s[start - 1]);
        }
        lemma_display_name_from(t, start);
        assert(!is_separator(s[s.len() - 1]));
        assert(s.subrange(start, s.len() as int) =~= t.subrange(start, t.len() as int).push(s.last()));
    }
}

/// Shortens a submodule name to what follows its last forward or backward
/// slash; a name without a slash is returned whole.
pub fn format_name(name: &str) -> (r: &str)
    ensures
        r@ == display_name_of(name@),
{
    let n = name.unicode_len();
    let mut i: usize = n;
    while i > 0
        invariant
            n == name@.len(),
            i <= n,
            forall|j: int| i <= j < n ==> !is_separator(#[trigger] name@[j]),
        ensures
            i <= n,
            i == 0 || is_separator(name@[i - 1]),
            forall|j: int| i <= j < n ==> !is_separator(#[trigger] name@[j]),
        decreases i,
    {
        let c = name.get_char(i - 1);
        if c == '/' || c == '\\' {
            break;
        }
        i = i - 1;
    }
    proof {
        lemma_display_name_from(name@, i as int);
    }
    name.substring_char(i, n)
}

/// A name with a separator at `i` and none after it has as display name
/// exactly what follows `i`.
pub proof fn law_name_after_last_separator(s: Seq<char>, i: int)
    requires
        0 <= i < s.len(),
        is_separator(s[i]),
        forall|j: int| i < j < s.len() ==> !is_separator(#[trigger] s[j]),
    ensures
        display_name_of(s) == s.subrange(i + 1, s.len() as int),
{
    lemma_display_name_from(s, i + 1);
}

/// A name without any separator is its own display name.
pub proof fn law_name_without_separator(s: Seq<char>)
    requires
        forall|j: int| 0 <= j < s.len() ==> !is_separator(#[trigger] s[j]),
    ensures
        display_name_of(s) == s,
{
    lemma_display_name_from(s, 0);
    assert(s.subrange(0, s.len() as int) =~= s);
}

/// A name that ends in a separator has an empty display name.
pub proof fn law_name_ending_in_separator(s: Seq<char>)
    requires
        s.len() > 0,
        is_separator(s.last()),
    ensures
        display_name_of(s) == Seq::<char>::empty(),
{
}

} // verus!
