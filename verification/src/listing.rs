//! The list of templates or projects as it is printed: sorted, one name to
//! a line.

use crate::arguments::texts_view;
use vstd::prelude::*;
use vstd::string::*;

verus! {

/// `a` is `b` or comes before it: the first character in which they differ
/// is the smaller in `a`, or `a` is the beginning of `b`.
pub open spec fn text_le(a: Seq<char>, b: Seq<char>) -> bool
    decreases a.len(),
{
    if a.len() == 0 {
        true
    } else if b.len() == 0 {
        false
    } else if a[0] != b[0] {
        (a[0] as int) < (b[0] as int)
    } else {
        text_le(a.skip(1), b.skip(1))
    }
}

/// Each of `texts` is the next one or comes before it.
pub open spec fn ascending(texts: Seq<Seq<char>>) -> bool {
    forall|i: int, j: int|
        0 <= i < j < texts.len() ==> text_le(#[trigger] texts[i], #[trigger] texts[j])
}

/// `lines` one after the other, with a line feed between two of them.
pub open spec fn joined(lines: Seq<Seq<char>>) -> Seq<char>
    decreases lines.len(),
{
    if lines.len() == 0 {
        Seq::empty()
    } else if lines.len() == 1 {
        lines[0]
    } else {
        joined(lines.drop_last()) + seq!['\n'] + lines.last()
    }
}

/// `std`'s `sort` on a `Vec` of strings: the same strings, in ascending
/// order. `std` orders strings by their bytes, which is the order of their
/// characters.
#[verifier::external_body]
fn sort_texts(texts: &mut Vec<String>)
    ensures
        texts_view(final(texts)@).to_multiset() == texts_view(old(texts)@).to_multiset(),
        ascending(texts_view(final(texts)@)),
{
    texts.sort();
}

/// The strings `lines` one after the other, with a line feed between two of
/// them.
pub fn join_lines(lines: &Vec<String>) -> (r: String)
    ensures
        r@ == joined(texts_view(lines@)),
{
    let mut text = String::new();
    let mut i: usize = 0;
    let ghost views = texts_view(lines@);
    assert(views.take(0) =~= Seq::empty());
    while i < lines.len()
        invariant
            i <= lines.len(),
            views == texts_view(lines@),
            text@ == joined(views.take(i as int)),
        decreases lines.len() - i,
    {
        proof {
            reveal_strlit("\n");
            assert("\n"@ =~= seq!['\n']);
            assert(views.take(i + 1).drop_last() =~= views.take(i as int));
            assert(views.take(i + 1).last() == lines[i as int]@);
            if i == 0 {
                assert(text@ + lines[i as int]@ =~= lines[i as int]@);
            }
        }
        if i > 0 {
            text.append("\n");
        }
        text.append(lines[i].as_str());
        i += 1;
    }
    assert(views.take(lines.len() as int) =~= views);
    text
}

/// The list of `items` as it is printed: in ascending order, one to a line.
/// `None` where there is no item.
pub fn listing(items: Vec<String>) -> (r: Option<String>)
    ensures
        r is None <==> items.len() == 0,
        r matches Some(text) ==> exists|sorted: Seq<Seq<char>>|
            {
                &&& #[trigger] ascending(sorted)
                &&& sorted.to_multiset() == texts_view(items@).to_multiset()
                &&& text@ == joined(sorted)
            },
{
    if items.len() == 0 {
        return None;
    }
    let mut items = items;
    sort_texts(&mut items);
    Some(join_lines(&items))
}

} // verus!
