use vstd::prelude::*;

verus! {

/// `c` equals the lowercase letter or digit `w`, ignoring ASCII case in `c`.
pub open spec fn char_matches_lower(c: char, w: char) -> bool {
    c == w || ('A' <= c && c <= 'Z' && c as u32 + 32 == w as u32)
}

/// `s` spells the lowercase word `w`, ignoring ASCII case.
pub open spec fn matches_ignoring_case(s: Seq<char>, w: Seq<char>) -> bool {
    &&& s.len() == w.len()
    &&& forall|i: int| 0 <= i < s.len() ==> char_matches_lower(#[trigger] s[i], w[i])
}

/// The candidates of `names` that start with `prefix`, in their order.
pub open spec fn starting_with(names: Seq<Seq<char>>, prefix: Seq<char>) -> Seq<Seq<char>> {
    names.filter(starts_with_pred(prefix))
}

/// The test that a name starts with `prefix`.
pub open spec fn starts_with_pred(prefix: Seq<char>) -> spec_fn(Seq<char>) -> bool {
    |n: Seq<char>| prefix.is_prefix_of(n)
}

/// Whether `s` starts with `prefix`.
pub fn has_prefix(s: &str, prefix: &str) -> (r: bool)
    ensures
        r == prefix@.is_prefix_of(s@),
{
    let n = s.unicode_len();
    let m = prefix.unicode_len();
    if m > n {
        return false;
    }
    let mut i: usize = 0;
    while i < m
        invariant
            m <= n,
            n == s@.len(),
            m == prefix@.len(),
            0 <= i <= m,
            forall|j: int| 0 <= j < i ==> prefix@[j] == s@[j],
        decreases m - i,
    {
        if s.get_char(i) != prefix.get_char(i) {
            return false;
        }
        i = i + 1;
    }
    proof {
        assert(prefix@ =~= s@.subrange(0, m as int));
    }
    true
}

/// Whether `s` spells the lowercase word `w`, ignoring ASCII case.
///
/// Only ASCII letters lowercase into the ASCII letters and digits of the
/// words this is used with, so this is what comparing the lowercased text
/// amounts to for them.
pub fn eq_ignoring_case(s: &str, w: &str) -> (r: bool)
    ensures
        r == matches_ignoring_case(s@, w@),
{
    let n = s.unicode_len();
    let m = w.unicode_len();
    if m != n {
        return false;
    }
    let mut i: usize = 0;
    while i < n
        invariant
            m == n,
            n == s@.len(),
            m == w@.len(),
            0 <= i <= n,
            forall|j: int| 0 <= j < i ==> char_matches_lower(#[trigger] s@[j], w@[j]),
        decreases n - i,
    {
        let c = s.get_char(i);
        let d = w.get_char(i);
        let same = c == d || ('A' <= c && c <= 'Z' && c as u32 + 32 == d as u32);
        if !same {
            return false;
        }
        i = i + 1;
    }
    true
}

/// The candidates that start with `prefix`, copied, in their order.
pub fn candidates_starting_with(names: &Vec<String>, prefix: &str) -> (r: Vec<String>)
    ensures
        r.deep_view() == starting_with(names.deep_view(), prefix@),
{
    let mut out: Vec<String> = Vec::new();
    let mut i: usize = 0;
    while i < names.len()
        invariant
            0 <= i <= names.len(),
            out.deep_view() == starting_with(names.deep_view().take(i as int), prefix@),
        decreases names.len() - i,
    {
        let ghost before = out.deep_view();
        proof {
            assert(names.deep_view().take(i as int + 1).drop_last() =~= names.deep_view().take(
                i as int,
            ));
            reveal_with_fuel(Seq::filter, 1);
        }
        if has_prefix(names[i].as_str(), prefix) {
            out.push(names[i].clone());
            proof {
                assert(out.deep_view() =~= before.push(names.deep_view()[i as int]));
            }
        }
        i = i + 1;
    }
    proof {
        assert(names.deep_view().take(names.len() as int) =~= names.deep_view());
    }
    out
}

/// Completion keeps exactly the candidates that start with the prefix: a
/// name is among the results if and only if it is a candidate and starts
/// with the prefix; the results are the candidates so filtered, in order.
pub proof fn lemma_completion_exact(names: Seq<Seq<char>>, prefix: Seq<char>, x: Seq<char>)
    ensures
        starting_with(names, prefix).contains(x) <==> names.contains(x) && prefix.is_prefix_of(x),
        starting_with(names, prefix) == names.filter(starts_with_pred(prefix)),
{
    broadcast use vstd::seq_lib::group_filter_ensures;

    let f = starts_with_pred(prefix);
    let out = names.filter(f);
    if out.contains(x) {
        names.lemma_filter_contains_rev(f, x);
        let i = choose|i: int| 0 <= i < out.len() && out[i] == x;
        assert(f(out[i]));
    }
    if names.contains(x) && prefix.is_prefix_of(x) {
        let i = choose|i: int| 0 <= i < names.len() && names[i] == x;
        assert(f(names[i]));
    }
}

} // verus!
