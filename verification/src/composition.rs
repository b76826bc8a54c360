//! Commands that go on with a placeholder: what stands before the
//! placeholder compiles as it does alone.

use crate::grammar::{
    add_modifier, after, digits_end, escaped_backslash, escaped_marker, is_marker, is_name_end, is_symbol,
    lemma_digits_end, lemma_name_end, lemma_plain_end, lemma_unit_consumes, name_end,
    no_modifiers, open_marker, plain_end, skip_comma, spec_custom_arg, spec_literal,
    spec_modifiers, spec_name, spec_num, spec_parse, spec_placeholder, spec_plain, spec_unit,
    spec_usize, Modifiers, SyntaxErrorView, UnitView,
};
use vstd::prelude::*;

verus! {

/// `y` begins with the marker `#{`.
pub open spec fn begins_placeholder(y: Seq<char>) -> bool {
    y.len() >= 2 && y[0] == '#' && y[1] == '{'
}

/// Text ends in `s` before `y` where it ends in `s` alone.
proof fn lemma_plain_before(s: Seq<char>, y: Seq<char>, i: int)
    requires
        begins_placeholder(y),
        0 <= i <= s.len(),
    ensures
        plain_end(s + y, i) == plain_end(s, i),
    decreases s.len() - i,
{
    let whole = s + y;
    if i < s.len() {
        assert(whole[i] == s[i]);
        if i + 1 < s.len() {
            assert(whole[i + 1] == s[i + 1]);
        } else {
            assert(whole[i + 1] == y[0]);
        }
        assert(is_marker(whole, i) == is_marker(s, i));
        lemma_plain_before(s, y, i + 1);
    } else {
        assert(whole[i] == y[0]);
        assert(whole[i + 1] == y[1]);
        assert(is_marker(whole, i));
    }
}

/// The numeric characters end in `s` before `y` where they end in `s` alone.
proof fn lemma_digits_before(s: Seq<char>, y: Seq<char>, i: int)
    requires
        begins_placeholder(y),
        0 <= i <= s.len(),
    ensures
        digits_end(s + y, i) == digits_end(s, i),
    decreases s.len() - i,
{
    let whole = s + y;
    if i < s.len() {
        assert(whole[i] == s[i]);
        lemma_digits_before(s, y, i + 1);
    } else {
        assert(whole[i] == y[0]);
    }
}

/// A name that ends in `s` ends at the same place in `s` before `y`.
proof fn lemma_name_before(s: Seq<char>, y: Seq<char>, i: int)
    requires
        0 <= i <= s.len(),
        name_end(s, i) < s.len(),
    ensures
        name_end(s + y, i) == name_end(s, i),
    decreases s.len() - i,
{
    let whole = s + y;
    if i < s.len() {
        assert(whole[i] == s[i]);
        if !is_name_end(s[i]) {
            lemma_name_before(s, y, i + 1);
        }
    }
}

/// One character that is no `#` is found at the start of `s` before `y` if
/// and only if it is found at the start of `s`.
proof fn lemma_literal_before(c: char, s: Seq<char>, y: Seq<char>)
    requires
        begins_placeholder(y),
        c != '#',
    ensures
        match spec_literal(seq![c], s) {
            Ok(rest) => spec_literal(seq![c], s + y) == Ok::<Seq<char>, SyntaxErrorView>(rest + y),
            Err(e) => spec_literal(seq![c], s + y) == Err::<Seq<char>, SyntaxErrorView>(e),
        },
{
    let whole = s + y;
    let literal = seq![c];
    if s.len() > 0 {
        assert(whole[0] == s[0]);
        assert(whole.subrange(0, 1)[0] == whole[0]);
        assert(s.subrange(0, 1)[0] == s[0]);
        if literal.is_prefix_of(s) {
            assert(literal =~= whole.subrange(0, 1));
            assert(whole.skip(1) =~= s.skip(1) + y);
        } else {
            if literal.is_prefix_of(whole) {
                assert(literal[0] == whole.subrange(0, 1)[0]);
                assert(literal =~= s.subrange(0, 1));
            }
        }
    } else {
        assert(whole[0] == y[0]);
        if literal.is_prefix_of(whole) {
            assert(literal[0] == whole.subrange(0, 1)[0]);
        }
    }
}

/// An index is read from `s` before `y` as it is read from `s`.
proof fn lemma_num_before(s: Seq<char>, y: Seq<char>)
    requires
        begins_placeholder(y),
    ensures
        match spec_num(s) {
            Ok((rest, num)) => spec_num(s + y) == Ok::<(Seq<char>, usize), SyntaxErrorView>(
                (rest + y, num),
            ),
            Err(_) => spec_num(s + y) is Err,
        },
{
    let whole = s + y;
    lemma_digits_before(s, y, 0);
    lemma_digits_end(s, 0);
    let end = digits_end(s, 0);
    if 0 < end {
        assert(whole.take(end) =~= s.take(end));
        assert(whole.skip(end) =~= s.skip(end) + y);
        lemma_literal_before(':', s.skip(end), y);
    }
}

/// A run of modifiers is read from `s` before `y` as it is read from `s`.
proof fn lemma_modifiers_before(s: Seq<char>, y: Seq<char>, met: Modifiers, indexed: bool)
    requires
        begins_placeholder(y),
    ensures
        match spec_modifiers(s, met, indexed) {
            Ok((rest, all)) => spec_modifiers(s + y, met, indexed) == Ok::<
                (Seq<char>, Modifiers),
                SyntaxErrorView,
            >((rest + y, all)),
            Err(e) => spec_modifiers(s + y, met, indexed) == Err::<
                (Seq<char>, Modifiers),
                SyntaxErrorView,
            >(e),
        },
    decreases s.len(),
{
    let whole = s + y;
    if s.len() > 0 {
        assert(whole[0] == s[0]);
        if is_symbol(s[0]) {
            match add_modifier(met, indexed, s[0]) {
                Ok(next) => {
                    assert(whole.skip(1) =~= s.skip(1) + y);
                    lemma_modifiers_before(s.skip(1), y, next, indexed);
                },
                Err(_) => {},
            }
        }
    } else {
        assert(whole[0] == y[0]);
        assert(whole =~= y);
        assert(s + y =~= y);
    }
}

/// A placeholder that is read from `s` is read from `s` before `y` as well,
/// and `y` follows what followed it.
proof fn lemma_placeholder_before(s: Seq<char>, y: Seq<char>)
    requires
        begins_placeholder(y),
        spec_placeholder(s) is Ok,
    ensures
        spec_placeholder(s + y) == Ok::<(Seq<char>, UnitView), SyntaxErrorView>(
            (spec_placeholder(s)->Ok_0.0 + y, spec_placeholder(s)->Ok_0.1),
        ),
{
    let whole = s + y;
    lemma_num_before(s, y);
    let (after_index, index) = match spec_num(s) {
        Ok((rest, index)) => (rest, Some(index)),
        Err(_) => (s, None),
    };
    let (whole_after_index, whole_index) = match spec_num(whole) {
        Ok((rest, index)) => (rest, Some(index)),
        Err(_) => (whole, None),
    };
    assert(whole_after_index == after_index + y && whole_index == index);

    lemma_name_end(after_index, 0);
    let long_end = name_end(after_index, 0);
    let (after_long, long) = spec_name(after_index);
    if long_end == after_index.len() {
        assert(after_long =~= Seq::<char>::empty());
        assert(skip_comma(after_long) == after_long);
        assert(spec_name(after_long).0 =~= Seq::<char>::empty());
        assert(false);
    }
    lemma_name_before(after_index, y, 0);
    assert((after_index + y).take(long_end) =~= long);
    assert((after_index + y).skip(long_end) =~= after_long + y);

    lemma_literal_before(',', after_long, y);
    let comma = skip_comma(after_long);
    assert(skip_comma(after_long + y) == comma + y);

    lemma_name_end(comma, 0);
    let short_end = name_end(comma, 0);
    let (after_short, short) = spec_name(comma);
    if short_end == comma.len() {
        assert(after_short =~= Seq::<char>::empty());
        assert(false);
    }
    lemma_name_before(comma, y, 0);
    assert((comma + y).take(short_end) =~= short);
    assert((comma + y).skip(short_end) =~= after_short + y);

    lemma_modifiers_before(after_short, y, no_modifiers(), index is Some);
    let after_modifiers = spec_modifiers(after_short, no_modifiers(), index is Some)->Ok_0.0;
    lemma_literal_before('}', after_modifiers, y);
}

/// A unit that is read from `x` is read from `x` before `y` as well, and
/// `y` follows what followed it.
proof fn lemma_unit_before(x: Seq<char>, y: Seq<char>)
    requires
        begins_placeholder(y),
        spec_unit(x) is Ok,
    ensures
        spec_unit(x + y) == Ok::<(Seq<char>, UnitView), SyntaxErrorView>(
            (spec_unit(x)->Ok_0.0 + y, spec_unit(x)->Ok_0.1),
        ),
{
    let whole = x + y;
    lemma_plain_before(x, y, 0);
    lemma_plain_end(x, 0);
    let end = plain_end(x, 0);
    assert(whole.take(end) =~= x.take(end));
    assert(whole.skip(end) =~= x.skip(end) + y);
    if end == 0 {
        if x.len() >= 2 {
            assert(whole.subrange(0, 2) =~= x.subrange(0, 2));
        } else {
            assert(!escaped_backslash().is_prefix_of(x));
            assert(!escaped_marker().is_prefix_of(x));
            assert(!open_marker().is_prefix_of(x));
            assert(false);
        }
        if escaped_backslash().is_prefix_of(x) {
            assert(whole.skip(2) =~= x.skip(2) + y);
        } else {
            if x.len() >= 3 {
                assert(whole.subrange(0, 3) =~= x.subrange(0, 3));
            } else {
                assert(!escaped_marker().is_prefix_of(x));
                if escaped_marker().is_prefix_of(whole) {
                    assert(whole.subrange(0, 3)[1] == whole[1]);
                    assert(whole[1] == x[1]);
                    assert(whole.subrange(0, 3)[0] == whole[0]);
                    assert(whole[0] == x[0]);
                    assert(whole.subrange(0, 3)[2] == whole[2]);
                    assert(whole[2] == y[0]);
                }
            }
            if escaped_marker().is_prefix_of(x) {
                let inner = x.skip(3);
                assert(whole.skip(3) =~= inner + y);
                lemma_plain_before(inner, y, 0);
                lemma_plain_end(inner, 0);
                let inner_end = plain_end(inner, 0);
                assert((inner + y).take(inner_end) =~= inner.take(inner_end));
                assert((inner + y).skip(inner_end) =~= inner.skip(inner_end) + y);
            } else {
                assert(open_marker().is_prefix_of(x));
                assert(open_marker() =~= whole.subrange(0, 2));
                assert(whole.skip(2) =~= x.skip(2) + y);
                lemma_placeholder_before(x.skip(2), y);
            }
        }
    }
}

/// Where `x` compiles and `y` begins with a placeholder, `x` before `y`
/// compiles to the units of `x` and then those of `y`, or fails as `y`
/// does.
pub proof fn lemma_parse_before_placeholder(x: Seq<char>, y: Seq<char>)
    requires
        begins_placeholder(y),
        spec_parse(x) is Ok,
    ensures
        spec_parse(x + y) == after(spec_parse(x)->Ok_0, spec_parse(y)),
    decreases x.len(),
{
    if x.len() == 0 {
        assert(x + y =~= y);
        match spec_parse(y) {
            Ok(units) => {
                assert(Seq::<UnitView>::empty() + units =~= units);
            },
            Err(_) => {},
        }
    } else {
        let (rest, unit) = spec_unit(x)->Ok_0;
        lemma_unit_consumes(x);
        lemma_unit_before(x, y);
        lemma_parse_before_placeholder(rest, y);
        let units = spec_parse(rest)->Ok_0;
        match spec_parse(y) {
            Ok(more) => {
                assert(seq![unit] + (units + more) =~= (seq![unit] + units) + more);
            },
            Err(_) => {},
        }
    }
}

} // verus!
