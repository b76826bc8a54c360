//! The grammar of template commands, over sequences of characters.
//!
//! Text runs up to a backslash or to the marker `#{`. A placeholder is `#{`,
//! an optional index `<digits>:` of at least 1, a long name, an optional `,`
//! and short name, modifiers out of `!`, `?` and `*`, and `}`.

use vstd::prelude::*;

verus! {

/// What a positional placeholder holds.
pub struct PositionalView {
    pub name: Seq<char>,
    pub allow_empty_values: bool,
    pub required: bool,
    pub index: usize,
}

/// What a value-taking placeholder holds.
pub struct OptionView {
    pub name: Seq<char>,
    pub long: Option<Seq<char>>,
    pub short: Option<char>,
    pub allow_empty_values: bool,
    pub required: bool,
}

/// What a flag placeholder holds.
pub struct FlagView {
    pub name: Seq<char>,
    pub long: Option<Seq<char>>,
    pub short: Option<char>,
}

/// One piece of a compiled command, as mathematical values.
pub enum UnitView {
    Text(Seq<char>),
    Positional(PositionalView),
    Option(OptionView),
    Flag(FlagView),
}

/// A modifier of a placeholder, or its index, as error messages name them.
#[derive(Debug, Clone, Copy, PartialEq, Eq, Structural)]
pub enum Symbol {
    /// `!`
    Required,
    /// `?`
    Flag,
    /// `*`
    AllowEmpty,
    /// `<num>:`
    Index,
}

/// Why a command does not compile, as mathematical values.
pub enum SyntaxErrorView {
    ExpectedLiteral(Seq<char>),
    ExpectedNumber(Seq<char>),
    InvalidNumber,
    ZeroIndex,
    ShortInPositional,
    IncompatibleSymbols(Symbol, Symbol),
}

/// What `std` writes for a string under `{:?}`: the string between double
/// quotes, with its escapes.
pub uninterp spec fn debug_text(s: Seq<char>) -> Seq<char>;

impl Symbol {
    /// The symbol as it stands in a command.
    pub open spec fn text(self) -> Seq<char> {
        match self {
            Symbol::Required => "!"@,
            Symbol::Flag => "?"@,
            Symbol::AllowEmpty => "*"@,
            Symbol::Index => "<num>:"@,
        }
    }
}

impl SyntaxErrorView {
    /// The message of the error.
    pub open spec fn message(self) -> Seq<char> {
        match self {
            SyntaxErrorView::ExpectedLiteral(literal) => "expected literal "@ + literal,
            SyntaxErrorView::ExpectedNumber(found) => "expecting usize number, found "@
                + debug_text(found),
            SyntaxErrorView::InvalidNumber => "failed parsing usize number"@,
            SyntaxErrorView::ZeroIndex => "index 0 not allowed in positional arguments"@,
            SyntaxErrorView::ShortInPositional => "short not allowed in positional arguments"@,
            SyntaxErrorView::IncompatibleSymbols(first, second) => "incompatible symbols: `"@
                + first.text() + "` and `"@ + second.text() + "`"@,
        }
    }
}

/// The modifiers met so far in a placeholder.
#[derive(Debug, Clone, Copy, PartialEq, Eq, Structural)]
pub struct Modifiers {
    pub required: bool,
    pub allow_empty_values: bool,
    pub flag: bool,
}

/// Whether `std`'s `char::is_numeric` holds of `c`: the Unicode categories
/// Nd, Nl and No.
pub uninterp spec fn is_numeric(c: char) -> bool;

/// `char::is_numeric` of `std`: a function of the character alone, which
/// `is_numeric` names. Of the characters up to U+007F the digits `0` to `9`
/// are numeric and no others.
pub assume_specification[ char::is_numeric ](c: char) -> (r: bool)
    ensures
        r == is_numeric(c),
        c <= '\x7f' ==> r == is_decimal_digit(c),
;

/// The characters of which an index may be made: the numeric ones. Up to
/// U+007F these are the digits `0` to `9`.
pub open spec fn is_index_char(c: char) -> bool {
    if c <= '\x7f' {
        is_decimal_digit(c)
    } else {
        is_numeric(c)
    }
}

/// A backslash stands at `i`, or the marker `#{` begins there: text ends.
pub open spec fn is_marker(s: Seq<char>, i: int) -> bool {
    &&& 0 <= i < s.len()
    &&& (s[i] == '\\' || (s[i] == '#' && i + 1 < s.len() && s[i + 1] == '{'))
}

/// The first position from `i` on at which text ends, or the length of `s`.
pub open spec fn plain_end(s: Seq<char>, i: int) -> int
    decreases s.len() - i,
{
    if i >= s.len() {
        s.len() as int
    } else if is_marker(s, i) {
        i
    } else {
        plain_end(s, i + 1)
    }
}

/// The scan for text halts at `i`: text ends there, or two braces `{{`
/// begin there, which are text all the same.
pub open spec fn is_stop(s: Seq<char>, i: int) -> bool {
    &&& 0 <= i < s.len()
    &&& (s[i] == '\\' || ((s[i] == '#' || s[i] == '{') && i + 1 < s.len() && s[i + 1] == '{'))
}

/// The first position from `i` on at which the scan for text halts, or the
/// length of `s`.
pub open spec fn text_end(s: Seq<char>, i: int) -> int
    decreases s.len() - i,
{
    if i >= s.len() {
        s.len() as int
    } else if is_stop(s, i) {
        i
    } else {
        text_end(s, i + 1)
    }
}

/// The characters that end a name.
pub open spec fn is_name_end(c: char) -> bool {
    c == '!' || c == '?' || c == '*' || c == ',' || c == '}'
}

/// The first position from `i` on that holds a character ending a name, or
/// the length of `s`.
pub open spec fn name_end(s: Seq<char>, i: int) -> int
    decreases s.len() - i,
{
    if i >= s.len() {
        s.len() as int
    } else if 0 <= i && is_name_end(s[i]) {
        i
    } else {
        name_end(s, i + 1)
    }
}

/// The first position from `i` on that holds no numeric character, or the
/// length of `s`.
pub open spec fn digits_end(s: Seq<char>, i: int) -> int
    decreases s.len() - i,
{
    if i >= s.len() {
        s.len() as int
    } else if 0 <= i && !is_index_char(s[i]) {
        i
    } else {
        digits_end(s, i + 1)
    }
}

/// The digits `0` to `9`.
pub open spec fn is_decimal_digit(c: char) -> bool {
    '0' <= c <= '9'
}

/// The number that decimal digits write, `None` where one of the characters
/// is no decimal digit.
pub open spec fn decimal_value(digits: Seq<char>) -> Option<nat>
    decreases digits.len(),
{
    if digits.len() == 0 {
        Some(0)
    } else {
        match decimal_value(digits.drop_last()) {
            Some(v) => if is_decimal_digit(digits.last()) {
                Some((v * 10 + (digits.last() as int - '0' as int)) as nat)
            } else {
                None
            },
            None => None,
        }
    }
}

/// `literal` at the start of `s`: what follows it.
pub open spec fn spec_literal(literal: Seq<char>, s: Seq<char>) -> Result<
    Seq<char>,
    SyntaxErrorView,
> {
    if literal.is_prefix_of(s) {
        Ok(s.skip(literal.len() as int))
    } else {
        Err(SyntaxErrorView::ExpectedLiteral(literal))
    }
}

/// A name at the start of `s`: what follows it, and the name.
pub open spec fn spec_name(s: Seq<char>) -> (Seq<char>, Seq<char>) {
    (s.skip(name_end(s, 0)), s.take(name_end(s, 0)))
}

/// One of the modifiers `!`, `?` and `*`.
pub open spec fn is_symbol(c: char) -> bool {
    c == '!' || c == '?' || c == '*'
}

/// A modifier at the start of `s`: what follows it, and the modifier.
pub open spec fn spec_symbol(s: Seq<char>) -> Option<(Seq<char>, char)> {
    if s.len() > 0 && is_symbol(s[0]) {
        Some((s.skip(1), s[0]))
    } else {
        None
    }
}

/// The start of `s` up to where the scan for text halts: what follows it,
/// and the start.
pub open spec fn spec_text(s: Seq<char>) -> (Seq<char>, Seq<char>) {
    (s.skip(text_end(s, 0)), s.take(text_end(s, 0)))
}

/// The text at the start of `s`, up to where text ends: what follows it,
/// and the text.
pub open spec fn spec_plain(s: Seq<char>) -> (Seq<char>, Seq<char>) {
    (s.skip(plain_end(s, 0)), s.take(plain_end(s, 0)))
}

/// A number at the start of `s` with something after it: what follows it,
/// and its value.
pub open spec fn spec_usize(s: Seq<char>) -> Result<(Seq<char>, usize), SyntaxErrorView> {
    let end = digits_end(s, 0);
    if end == 0 || end == s.len() {
        Err(SyntaxErrorView::ExpectedNumber(s))
    } else {
        match decimal_value(s.take(end)) {
            Some(v) => if v <= usize::MAX {
                Ok((s.skip(end), v as usize))
            } else {
                Err(SyntaxErrorView::InvalidNumber)
            },
            None => Err(SyntaxErrorView::InvalidNumber),
        }
    }
}

/// An index, `<digits>:`, at the start of `s`: what follows it, and the index.
pub open spec fn spec_num(s: Seq<char>) -> Result<(Seq<char>, usize), SyntaxErrorView> {
    match spec_usize(s) {
        Ok((rest, num)) => match spec_literal(seq![':'], rest) {
            Ok(rest) => Ok((rest, num)),
            Err(e) => Err(e),
        },
        Err(e) => Err(e),
    }
}

/// No modifier.
pub open spec fn no_modifiers() -> Modifiers {
    Modifiers { required: false, allow_empty_values: false, flag: false }
}

/// The modifiers after `symbol` is met, in a placeholder that has an index
/// or has none. `?` excludes `!`, `*` and an index.
pub open spec fn add_modifier(met: Modifiers, indexed: bool, symbol: char) -> Result<
    Modifiers,
    SyntaxErrorView,
> {
    if symbol == '!' {
        if met.flag {
            Err(SyntaxErrorView::IncompatibleSymbols(Symbol::Required, Symbol::Flag))
        } else {
            Ok(Modifiers { required: true, ..met })
        }
    } else if symbol == '?' {
        if met.required {
            Err(SyntaxErrorView::IncompatibleSymbols(Symbol::Flag, Symbol::Required))
        } else if met.allow_empty_values {
            Err(SyntaxErrorView::IncompatibleSymbols(Symbol::Flag, Symbol::AllowEmpty))
        } else if indexed {
            Err(SyntaxErrorView::IncompatibleSymbols(Symbol::Flag, Symbol::Index))
        } else {
            Ok(Modifiers { flag: true, ..met })
        }
    } else {
        if met.flag {
            Err(SyntaxErrorView::IncompatibleSymbols(Symbol::AllowEmpty, Symbol::Flag))
        } else {
            Ok(Modifiers { allow_empty_values: true, ..met })
        }
    }
}

/// The run of modifiers at the start of `s`, added to `met`: what follows
/// the run, and the modifiers.
pub open spec fn spec_modifiers(s: Seq<char>, met: Modifiers, indexed: bool) -> Result<
    (Seq<char>, Modifiers),
    SyntaxErrorView,
>
    decreases s.len(),
{
    if s.len() > 0 && is_symbol(s[0]) {
        match add_modifier(met, indexed, s[0]) {
            Ok(next) => spec_modifiers(s.skip(1), next, indexed),
            Err(e) => Err(e),
        }
    } else {
        Ok((s, met))
    }
}

/// The unit that a placeholder's parts make. A flag wins over an index, an
/// index over neither. The name is the long name, or the short name where
/// the long one is empty; of the short name only the first character counts.
pub open spec fn make_unit(
    index: Option<usize>,
    long: Seq<char>,
    short: Seq<char>,
    met: Modifiers,
) -> UnitView {
    let name = if long.len() == 0 {
        short
    } else {
        long
    };
    let long = if long.len() == 0 {
        None
    } else {
        Some(long)
    };
    let short = if short.len() == 0 {
        None
    } else {
        Some(short[0])
    };
    if met.flag {
        UnitView::Flag(FlagView { name, long, short })
    } else {
        match index {
            Some(index) => UnitView::Positional(
                PositionalView {
                    name,
                    allow_empty_values: met.allow_empty_values,
                    required: met.required,
                    index,
                },
            ),
            None => UnitView::Option(
                OptionView {
                    name,
                    long,
                    short,
                    allow_empty_values: met.allow_empty_values,
                    required: met.required,
                },
            ),
        }
    }
}

/// `s` without a `,` at its start.
pub open spec fn skip_comma(s: Seq<char>) -> Seq<char> {
    match spec_literal(seq![','], s) {
        Ok(rest) => rest,
        Err(_) => s,
    }
}

/// A placeholder's inner text at the start of `s`, up to and with the
/// closing `}`: what follows it, and the unit. An index is at least 1.
pub open spec fn spec_placeholder(s: Seq<char>) -> Result<(Seq<char>, UnitView), SyntaxErrorView> {
    let (after_index, index) = match spec_num(s) {
        Ok((rest, index)) => (rest, Some(index)),
        Err(_) => (s, None),
    };
    let (after_long, long) = spec_name(after_index);
    let (after_short, short) = spec_name(skip_comma(after_long));
    if index == Some(0usize) {
        Err(SyntaxErrorView::ZeroIndex)
    } else if index is Some && short.len() > 0 {
        Err(SyntaxErrorView::ShortInPositional)
    } else {
        match spec_modifiers(after_short, no_modifiers(), index is Some) {
            Ok((after_modifiers, met)) => match spec_literal(seq!['}'], after_modifiers) {
                Ok(rest) => Ok((rest, make_unit(index, long, short, met))),
                Err(e) => Err(e),
            },
            Err(e) => Err(e),
        }
    }
}

/// The marker that opens a placeholder.
pub open spec fn open_marker() -> Seq<char> {
    seq!['#', '{']
}

/// The escaped marker, which stands for the marker as text.
pub open spec fn escaped_marker() -> Seq<char> {
    seq!['\\', '#', '{']
}

/// The escaped backslash, which stands for one backslash.
pub open spec fn escaped_backslash() -> Seq<char> {
    seq!['\\', '\\']
}

/// An escaped marker with the text after it, or a placeholder, at the start
/// of `s`: what follows it, and the unit.
pub open spec fn spec_custom_arg(s: Seq<char>) -> Result<(Seq<char>, UnitView), SyntaxErrorView> {
    if escaped_marker().is_prefix_of(s) {
        let (rest, text) = spec_plain(s.skip(3));
        Ok((rest, UnitView::Text(open_marker() + text)))
    } else {
        match spec_literal(open_marker(), s) {
            Ok(inner) => spec_placeholder(inner),
            Err(e) => Err(e),
        }
    }
}

/// The unit at the start of `s`: what follows it, and the unit. Text as far
/// as it runs; where none stands there, an escaped backslash, an escaped
/// marker or a placeholder.
pub open spec fn spec_unit(s: Seq<char>) -> Result<(Seq<char>, UnitView), SyntaxErrorView> {
    let (rest, text) = spec_plain(s);
    if text.len() > 0 {
        Ok((rest, UnitView::Text(text)))
    } else if escaped_backslash().is_prefix_of(s) {
        Ok((s.skip(2), UnitView::Text(seq!['\\'])))
    } else {
        spec_custom_arg(s)
    }
}

/// The units `done` before what `rest` gives.
pub open spec fn after(done: Seq<UnitView>, rest: Result<Seq<UnitView>, SyntaxErrorView>) -> Result<
    Seq<UnitView>,
    SyntaxErrorView,
> {
    match rest {
        Ok(units) => Ok(done + units),
        Err(e) => Err(e),
    }
}

/// The units of the command `s`, or why it does not compile: the first
/// error met from left to right.
pub open spec fn spec_parse(s: Seq<char>) -> Result<Seq<UnitView>, SyntaxErrorView>
    decreases s.len(),
    via spec_parse_decreases
{
    if s.len() == 0 {
        Ok(Seq::empty())
    } else {
        match spec_unit(s) {
            Ok((rest, unit)) => after(seq![unit], spec_parse(rest)),
            Err(e) => Err(e),
        }
    }
}

#[via_fn]
proof fn spec_parse_decreases(s: Seq<char>) {
    if s.len() > 0 {
        lemma_unit_consumes(s);
    }
}

/// `plain_end` lies between its start and the length, text ends at no
/// position before it, and it does there unless that is the length.
pub proof fn lemma_plain_end(s: Seq<char>, i: int)
    requires
        0 <= i <= s.len(),
    ensures
        i <= plain_end(s, i) <= s.len(),
        forall|j: int| i <= j < plain_end(s, i) ==> !is_marker(s, j),
        plain_end(s, i) < s.len() ==> is_marker(s, plain_end(s, i)),
    decreases s.len() - i,
{
    if i < s.len() && !is_marker(s, i) {
        lemma_plain_end(s, i + 1);
    }
}

/// Where text ends at no position from `from` up to `to`, it ends from
/// `from` on where it ends from `to` on.
pub proof fn lemma_plain_run(s: Seq<char>, from: int, to: int)
    requires
        0 <= from <= to <= s.len(),
        forall|j: int| from <= j < to ==> !is_marker(s, j),
    ensures
        plain_end(s, from) == plain_end(s, to),
    decreases to - from,
{
    if from < to {
        lemma_plain_run(s, from + 1, to);
    }
}

/// `text_end` lies between its start and the length, the scan halts at no
/// position before it, and it does there unless that is the length.
pub proof fn lemma_text_end(s: Seq<char>, i: int)
    requires
        0 <= i <= s.len(),
    ensures
        i <= text_end(s, i) <= s.len(),
        forall|j: int| i <= j < text_end(s, i) ==> !is_stop(s, j),
        text_end(s, i) < s.len() ==> is_stop(s, text_end(s, i)),
    decreases s.len() - i,
{
    if i < s.len() && !is_stop(s, i) {
        lemma_text_end(s, i + 1);
    }
}

/// `name_end` lies between its start and the length, no position before it
/// ends a name, and it does unless it is the length.
pub proof fn lemma_name_end(s: Seq<char>, i: int)
    requires
        0 <= i <= s.len(),
    ensures
        i <= name_end(s, i) <= s.len(),
        forall|j: int| i <= j < name_end(s, i) ==> !is_name_end(#[trigger] s[j]),
        name_end(s, i) < s.len() ==> is_name_end(s[name_end(s, i)]),
    decreases s.len() - i,
{
    if i < s.len() && !is_name_end(s[i]) {
        lemma_name_end(s, i + 1);
    }
}

/// `digits_end` lies between its start and the length, every position before
/// it holds a numeric character, and it holds none unless it is the length.
pub proof fn lemma_digits_end(s: Seq<char>, i: int)
    requires
        0 <= i <= s.len(),
    ensures
        i <= digits_end(s, i) <= s.len(),
        forall|j: int| i <= j < digits_end(s, i) ==> is_index_char(#[trigger] s[j]),
        digits_end(s, i) < s.len() ==> !is_index_char(s[digits_end(s, i)]),
    decreases s.len() - i,
{
    if i < s.len() && is_index_char(s[i]) {
        lemma_digits_end(s, i + 1);
    }
}

/// A run of modifiers leaves no more than it was given.
pub proof fn lemma_modifiers_rest(s: Seq<char>, met: Modifiers, indexed: bool)
    ensures
        spec_modifiers(s, met, indexed) matches Ok((rest, _)) ==> rest.len() <= s.len(),
    decreases s.len(),
{
    if s.len() > 0 && is_symbol(s[0]) {
        match add_modifier(met, indexed, s[0]) {
            Ok(next) => lemma_modifiers_rest(s.skip(1), next, indexed),
            Err(_) => {},
        }
    }
}

/// A unit that is read from `s` takes at least one character of it.
pub proof fn lemma_unit_consumes(s: Seq<char>)
    ensures
        spec_unit(s) matches Ok((rest, _)) ==> rest.len() < s.len(),
{
    lemma_plain_end(s, 0);
    if spec_plain(s).1.len() == 0 && !escaped_backslash().is_prefix_of(s) {
        if escaped_marker().is_prefix_of(s) {
            lemma_plain_end(s.skip(3), 0);
        } else if open_marker().is_prefix_of(s) {
            lemma_placeholder_rest(s.skip(2));
        }
    }
}

/// A placeholder leaves less than it was given.
pub proof fn lemma_placeholder_rest(s: Seq<char>)
    ensures
        spec_placeholder(s) matches Ok((rest, _)) ==> rest.len() < s.len(),
{
    let (after_index, index) = match spec_num(s) {
        Ok((rest, index)) => (rest, Some(index)),
        Err(_) => (s, None),
    };
    lemma_digits_end(s, 0);
    assert(after_index.len() <= s.len());
    lemma_name_end(after_index, 0);
    let (after_long, long) = spec_name(after_index);
    lemma_name_end(skip_comma(after_long), 0);
    let (after_short, short) = spec_name(skip_comma(after_long));
    lemma_modifiers_rest(after_short, no_modifiers(), index is Some);
}

/// Where digits write a number, each of their prefixes writes one that is
/// no larger.
pub proof fn lemma_decimal_prefix(digits: Seq<char>, k: int)
    requires
        0 <= k <= digits.len(),
    ensures
        decimal_value(digits) matches Some(v) ==> decimal_value(digits.take(k)) matches Some(u)
            && u <= v,
    decreases digits.len(),
{
    if k == digits.len() {
        assert(digits.take(k) =~= digits);
    } else {
        assert(digits.drop_last().take(k) =~= digits.take(k));
        lemma_decimal_prefix(digits.drop_last(), k);
    }
}

/// A command without a backslash and without the marker `#{` is one unit
/// of text, the command itself, unless it is empty.
pub proof fn lemma_plain_text(s: Seq<char>)
    requires
        s.len() > 0,
        forall|i: int| 0 <= i < s.len() ==> !is_marker(s, i),
    ensures
        spec_parse(s) == Ok::<Seq<UnitView>, SyntaxErrorView>(seq![UnitView::Text(s)]),
{
    lemma_plain_end(s, 0);
    assert(plain_end(s, 0) == s.len());
    assert(s.take(s.len() as int) =~= s);
    assert(s.skip(s.len() as int) =~= Seq::<char>::empty());
    assert(spec_unit(s) == Ok::<(Seq<char>, UnitView), SyntaxErrorView>(
        (Seq::<char>::empty(), UnitView::Text(s)),
    ));
    assert(spec_parse(Seq::<char>::empty()) == Ok::<Seq<UnitView>, SyntaxErrorView>(Seq::empty()));
    assert(seq![UnitView::Text(s)] + Seq::<UnitView>::empty() =~= seq![UnitView::Text(s)]);
}

/// An escaped marker with text after it that holds neither a backslash nor
/// a marker is one unit of text: the marker and the text after it.
pub proof fn lemma_escaped_marker(text: Seq<char>)
    requires
        forall|i: int| 0 <= i < text.len() ==> !is_marker(text, i),
    ensures
        spec_parse(escaped_marker() + text) == Ok::<Seq<UnitView>, SyntaxErrorView>(
            seq![UnitView::Text(open_marker() + text)],
        ),
{
    let s = escaped_marker() + text;
    lemma_plain_end(text, 0);
    assert(is_marker(s, 0));
    assert(s[1] == '#');
    assert(!escaped_backslash().is_prefix_of(s)) by {
        if escaped_backslash().is_prefix_of(s) {
            assert(escaped_backslash()[1] == s.subrange(0, 2)[1]);
        }
    }
    assert(escaped_marker().is_prefix_of(s)) by {
        assert(escaped_marker() =~= s.subrange(0, 3));
    }
    assert(s.skip(3) =~= text);
    assert(text.take(text.len() as int) =~= text);
    assert(text.skip(text.len() as int) =~= Seq::<char>::empty());
    assert(spec_unit(s) == Ok::<(Seq<char>, UnitView), SyntaxErrorView>(
        (Seq::<char>::empty(), UnitView::Text(open_marker() + text)),
    ));
    assert(s.len() > 0);
    assert(spec_parse(Seq::<char>::empty()) == Ok::<Seq<UnitView>, SyntaxErrorView>(Seq::empty()));
    assert(seq![UnitView::Text(open_marker() + text)] + Seq::<UnitView>::empty() =~= seq![
        UnitView::Text(open_marker() + text),
    ]);
}

/// The first position from `i` on that holds no modifier, or the length of
/// `s`.
pub open spec fn symbols_end(s: Seq<char>, i: int) -> int
    decreases s.len() - i,
{
    if i >= s.len() {
        s.len() as int
    } else if 0 <= i && !is_symbol(s[i]) {
        i
    } else {
        symbols_end(s, i + 1)
    }
}

/// Modifiers that do not go together: a flag that is required, allows an
/// empty value or has an index.
pub open spec fn conflicting(met: Modifiers, indexed: bool) -> bool {
    met.flag && (met.required || met.allow_empty_values || indexed)
}

/// The modifiers `met` and those among `symbols`.
pub open spec fn with_symbols(met: Modifiers, symbols: Seq<char>) -> Modifiers {
    Modifiers {
        required: met.required || symbols.contains('!'),
        allow_empty_values: met.allow_empty_values || symbols.contains('*'),
        flag: met.flag || symbols.contains('?'),
    }
}

/// The run of modifiers at the start of `s` is read in any order and with
/// repetitions: each modifier counts if it stands in the run. It fails if and
/// only if the modifiers do not go together, and then with their conflict.
pub proof fn lemma_modifiers(s: Seq<char>, met: Modifiers, indexed: bool)
    requires
        !conflicting(met, indexed),
    ensures
        symbols_end(s, 0) <= s.len(),
        match spec_modifiers(s, met, indexed) {
            Ok((rest, all)) => {
                &&& rest == s.skip(symbols_end(s, 0))
                &&& all == with_symbols(met, s.take(symbols_end(s, 0)))
                &&& !conflicting(all, indexed)
            },
            Err(e) => e is IncompatibleSymbols && conflicting(
                with_symbols(met, s.take(symbols_end(s, 0))),
                indexed,
            ),
        },
    decreases s.len(),
{
    let end = symbols_end(s, 0);
    lemma_symbols_end(s, 0);
    if s.len() > 0 && is_symbol(s[0]) {
        let tail = s.skip(1);
        lemma_symbols_end_skip(s, 0);
        lemma_symbols_end(tail, 0);
        let run = s.take(end);
        let tail_run = tail.take(end - 1);
        assert(run =~= seq![s[0]] + tail_run);
        assert(run[0] == s[0]);
        assert forall|c: char| run.contains(c) <==> c == s[0] || tail_run.contains(c) by {
            if run.contains(c) {
                let k = choose|k: int| 0 <= k < run.len() && run[k] == c;
                if k > 0 {
                    assert(tail_run[k - 1] == c);
                }
            }
            if tail_run.contains(c) {
                let k = choose|k: int| 0 <= k < tail_run.len() && tail_run[k] == c;
                assert(run[k + 1] == c);
            }
        }
        match add_modifier(met, indexed, s[0]) {
            Ok(next) => {
                lemma_modifiers(tail, next, indexed);
                assert(tail.skip(end - 1) =~= s.skip(end));
                assert(with_symbols(next, tail_run) == with_symbols(met, run));
            },
            Err(_) => {},
        }
    } else {
        assert(s.take(0) =~= Seq::<char>::empty());
        assert(s.skip(0) =~= s);
    }
}

/// The run of modifiers ends in `s` one position after where it ends in
/// what follows the first character of `s`.
proof fn lemma_symbols_end_skip(s: Seq<char>, i: int)
    requires
        0 <= i,
        s.len() > 0,
    ensures
        symbols_end(s, i + 1) == symbols_end(s.skip(1), i) + 1,
    decreases s.len() - i,
{
    if i + 1 < s.len() {
        lemma_symbols_end_skip(s, i + 1);
    }
}

/// The run of modifiers ends between its start and the length.
proof fn lemma_symbols_end(s: Seq<char>, i: int)
    requires
        0 <= i <= s.len(),
    ensures
        i <= symbols_end(s, i) <= s.len(),
    decreases s.len() - i,
{
    if i < s.len() && is_symbol(s[i]) {
        lemma_symbols_end(s, i + 1);
    }
}

/// A positional placeholder has an index of at least 1.
pub open spec fn one_based(unit: UnitView) -> bool {
    unit matches UnitView::Positional(unit) ==> unit.index >= 1
}

/// A placeholder that is read has an index of at least 1 if it has one.
pub proof fn lemma_placeholder_one_based(s: Seq<char>)
    ensures
        spec_placeholder(s) matches Ok((_, unit)) ==> one_based(unit),
{
}

/// Every unit of a command that compiles is one-based: no positional
/// placeholder has the index 0.
pub proof fn lemma_parse_one_based(s: Seq<char>)
    ensures
        spec_parse(s) matches Ok(units) ==> forall|i: int|
            0 <= i < units.len() ==> one_based(#[trigger] units[i]),
    decreases s.len(),
{
    if s.len() > 0 {
        match spec_unit(s) {
            Ok((rest, unit)) => {
                lemma_unit_consumes(s);
                lemma_parse_one_based(rest);
                lemma_placeholder_one_based(s.skip(2));
                assert(one_based(unit));
            },
            Err(_) => {},
        }
    }
}

} // verus!
