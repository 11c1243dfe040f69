//! Small string operations shared by the loader and the language server.
use vstd::prelude::*;

verus! {

/// The segments joined with `separator` between neighbours.
pub open spec fn joined(segments: Seq<Seq<char>>, separator: Seq<char>) -> Seq<char>
    decreases segments.len(),
{
    if segments.len() == 0 {
        Seq::empty()
    } else if segments.len() == 1 {
        segments[0]
    } else {
        joined(segments.drop_last(), separator) + separator + segments.last()
    }
}

/// The name of the standard library root module.
pub open spec fn std_name() -> Seq<char> {
    seq!['s', 't', 'd']
}

/// Joins `segments` with `separator`, as `[String]::join` does.
pub fn join_segments(segments: &Vec<String>, separator: &str) -> (text: String)
    ensures
        text@ == joined(segments.deep_view(), separator@),
{
    let ghost all = segments.deep_view();
    let mut text = String::new();
    let mut i: usize = 0;
    while i < segments.len()
        invariant
            i <= segments.len(),
            all == segments.deep_view(),
            all.len() == segments@.len(),
            text@ == joined(all.take(i as int), separator@),
        decreases segments.len() - i,
    {
        assert(all.take(i + 1).drop_last() =~= all.take(i as int));
        assert(all.take(i + 1).last() == segments@[i as int]@);
        if i != 0 {
            text.append(separator);
        } else {
            assert(all.take(1) =~= seq![segments@[0]@]);
        }
        text.append(segments[i].as_str());
        i = i + 1;
    }
    assert(all.take(segments.len() as int) =~= all);
    text
}

/// Whether `segment` is exactly `std`.
pub fn is_std(segment: &String) -> (r: bool)
    ensures
        r == (segment@ == std_name()),
{
    let name = String::from_str("std");
    proof {
        reveal_strlit("std");
    }
    assert(name@ =~= std_name());
    *segment == name
}

/// A fresh string holding the concatenation of the given parts.
pub fn concat3(first: &str, second: &str, third: &str) -> (text: String)
    ensures
        text@ == first@ + second@ + third@,
{
    let mut text = String::from_str(first);
    text.append(second);
    text.append(third);
    text
}

} // verus!
