//! The parser of template commands.
//!
//! A command is scanned into literal text and placeholders. What each function
//! returns is stated against the grammar in [`crate::grammar`].

use crate::grammar::{
    add_modifier, after, debug_text, decimal_value, digits_end, is_marker, is_name_end, is_stop,
    lemma_decimal_prefix, lemma_parse_one_based, lemma_plain_end, lemma_plain_run,
    lemma_text_end, lemma_unit_consumes, name_end, no_modifiers, one_based, plain_end,
    spec_custom_arg, spec_literal, spec_modifiers, spec_name, spec_num, spec_parse, spec_plain,
    spec_symbol, spec_text, spec_unit, spec_usize, text_end, FlagView, Modifiers, OptionView,
    PositionalView, Symbol, SyntaxErrorView, UnitView,
};
use vstd::prelude::*;
use vstd::std_specs::cmp::PartialEqSpecImpl;
use vstd::string::*;

verus! {

/// A compiled command: its units in source order.
pub type CompiledCommand = Vec<Unit>;

/// A positional placeholder, `#{1:name}`.
#[derive(Debug, Eq, Hash)]
pub struct ClapPositional {
    pub name: String,
    pub allow_empty_values: bool,
    pub required: bool,
    pub index: usize,
}

/// A placeholder that takes a value, `#{name}` or `#{name,n}`.
#[derive(Debug, Eq, Hash)]
pub struct ClapOption {
    pub name: String,
    pub long: Option<String>,
    pub short: Option<char>,
    pub allow_empty_values: bool,
    pub required: bool,
}

/// A placeholder that is present or absent, `#{name?}`.
#[derive(Debug, Eq, Hash)]
pub struct ClapFlag {
    pub name: String,
    pub long: Option<String>,
    pub short: Option<char>,
}

/// One piece of a compiled command.
#[derive(Debug, Eq, Hash)]
pub enum Unit {
    Text(String),
    Positional(ClapPositional),
    Option(ClapOption),
    Flag(ClapFlag),
}

impl View for ClapPositional {
    type V = PositionalView;

    open spec fn view(&self) -> PositionalView {
        PositionalView {
            name: self.name@,
            allow_empty_values: self.allow_empty_values,
            required: self.required,
            index: self.index,
        }
    }
}

impl View for ClapOption {
    type V = OptionView;

    open spec fn view(&self) -> OptionView {
        OptionView {
            name: self.name@,
            long: text_view(self.long),
            short: self.short,
            allow_empty_values: self.allow_empty_values,
            required: self.required,
        }
    }
}

impl View for ClapFlag {
    type V = FlagView;

    open spec fn view(&self) -> FlagView {
        FlagView { name: self.name@, long: text_view(self.long), short: self.short }
    }
}

impl View for Unit {
    type V = UnitView;

    open spec fn view(&self) -> UnitView {
        match self {
            Unit::Text(text) => UnitView::Text(text@),
            Unit::Positional(unit) => UnitView::Positional(unit@),
            Unit::Option(unit) => UnitView::Option(unit@),
            Unit::Flag(unit) => UnitView::Flag(unit@),
        }
    }
}

/// The view of an optional string.
pub open spec fn text_view(text: Option<String>) -> Option<Seq<char>> {
    match text {
        Some(t) => Some(t@),
        None => None,
    }
}

/// The views of the units of a command, in order.
pub open spec fn units_view(units: Seq<Unit>) -> Seq<UnitView> {
    units.map_values(|u: Unit| u@)
}

/// Whether two optional strings hold the same text.
pub(crate) fn same_text(a: &Option<String>, b: &Option<String>) -> (r: bool)
    ensures
        r == (text_view(*a) == text_view(*b)),
{
    match (a, b) {
        (Some(x), Some(y)) => *x == *y,
        (None, None) => true,
        _ => false,
    }
}

/// Whether two optional characters are the same.
fn same_char(a: Option<char>, b: Option<char>) -> (r: bool)
    ensures
        r == (a == b),
{
    match (a, b) {
        (Some(x), Some(y)) => x == y,
        (None, None) => true,
        _ => false,
    }
}

/// A copy of an optional string.
pub(crate) fn copy_text(text: &Option<String>) -> (r: Option<String>)
    ensures
        r == *text,
{
    match text {
        Some(t) => Some(t.clone()),
        None => None,
    }
}

impl Clone for ClapPositional {
    fn clone(&self) -> (r: ClapPositional)
        ensures
            r == *self,
    {
        ClapPositional {
            name: self.name.clone(),
            allow_empty_values: self.allow_empty_values,
            required: self.required,
            index: self.index,
        }
    }
}

impl Clone for ClapOption {
    fn clone(&self) -> (r: ClapOption)
        ensures
            r == *self,
    {
        ClapOption {
            name: self.name.clone(),
            long: copy_text(&self.long),
            short: self.short,
            allow_empty_values: self.allow_empty_values,
            required: self.required,
        }
    }
}

impl Clone for ClapFlag {
    fn clone(&self) -> (r: ClapFlag)
        ensures
            r == *self,
    {
        ClapFlag { name: self.name.clone(), long: copy_text(&self.long), short: self.short }
    }
}

impl Clone for Unit {
    fn clone(&self) -> (r: Unit)
        ensures
            r == *self,
    {
        match self {
            Unit::Text(text) => Unit::Text(text.clone()),
            Unit::Positional(unit) => Unit::Positional(unit.clone()),
            Unit::Option(unit) => Unit::Option(unit.clone()),
            Unit::Flag(unit) => Unit::Flag(unit.clone()),
        }
    }
}

impl PartialEq for ClapPositional {
    fn eq(&self, other: &ClapPositional) -> (r: bool) {
        self.name == other.name && self.allow_empty_values == other.allow_empty_values
            && self.required == other.required && self.index == other.index
    }
}

impl PartialEqSpecImpl for ClapPositional {
    open spec fn obeys_eq_spec() -> bool {
        true
    }

    open spec fn eq_spec(&self, other: &ClapPositional) -> bool {
        self@ == other@
    }
}

impl PartialEq for ClapOption {
    fn eq(&self, other: &ClapOption) -> (r: bool) {
        self.name == other.name && same_text(&self.long, &other.long) && same_char(
            self.short,
            other.short,
        ) && self.allow_empty_values == other.allow_empty_values && self.required
            == other.required
    }
}

impl PartialEqSpecImpl for ClapOption {
    open spec fn obeys_eq_spec() -> bool {
        true
    }

    open spec fn eq_spec(&self, other: &ClapOption) -> bool {
        self@ == other@
    }
}

impl PartialEq for ClapFlag {
    fn eq(&self, other: &ClapFlag) -> (r: bool) {
        self.name == other.name && same_text(&self.long, &other.long) && same_char(
            self.short,
            other.short,
        )
    }
}

impl PartialEqSpecImpl for ClapFlag {
    open spec fn obeys_eq_spec() -> bool {
        true
    }

    open spec fn eq_spec(&self, other: &ClapFlag) -> bool {
        self@ == other@
    }
}

impl PartialEq for Unit {
    fn eq(&self, other: &Unit) -> (r: bool) {
        match (self, other) {
            (Unit::Text(a), Unit::Text(b)) => *a == *b,
            (Unit::Positional(a), Unit::Positional(b)) => *a == *b,
            (Unit::Option(a), Unit::Option(b)) => *a == *b,
            (Unit::Flag(a), Unit::Flag(b)) => *a == *b,
            _ => false,
        }
    }
}

impl PartialEqSpecImpl for Unit {
    open spec fn obeys_eq_spec() -> bool {
        true
    }

    open spec fn eq_spec(&self, other: &Unit) -> bool {
        self@ == other@
    }
}

/// Why a command does not compile.
#[derive(Debug, Clone, PartialEq, Eq)]
pub enum SyntaxError {
    /// The text does not go on with the literal held here.
    ExpectedLiteral(String),
    /// No number followed by a further character stands at the start of the
    /// text held here.
    ExpectedNumber(String),
    /// The digits do not write a number that fits.
    InvalidNumber,
    /// A placeholder has the index 0; the first place is 1.
    ZeroIndex,
    /// A placeholder with an index has a short name.
    ShortInPositional,
    /// The first symbol cannot follow the second.
    IncompatibleSymbols(Symbol, Symbol),
}

impl View for SyntaxError {
    type V = SyntaxErrorView;

    open spec fn view(&self) -> SyntaxErrorView {
        match self {
            SyntaxError::ExpectedLiteral(literal) => SyntaxErrorView::ExpectedLiteral(literal@),
            SyntaxError::ExpectedNumber(found) => SyntaxErrorView::ExpectedNumber(found@),
            SyntaxError::InvalidNumber => SyntaxErrorView::InvalidNumber,
            SyntaxError::ZeroIndex => SyntaxErrorView::ZeroIndex,
            SyntaxError::ShortInPositional => SyntaxErrorView::ShortInPositional,
            SyntaxError::IncompatibleSymbols(first, second) => SyntaxErrorView::IncompatibleSymbols(
                *first,
                *second,
            ),
        }
    }
}

/// `std`'s `format!` with `{:?}` on a string: a function of the string
/// alone, which `debug_text` names.
#[verifier::external_body]
pub(crate) fn debug_string(s: &str) -> (r: String)
    ensures
        r@ == debug_text(s@),
{
    format!("{:?}", s)
}

/// The symbol as it stands in a command.
fn symbol_text(symbol: Symbol) -> (r: &'static str)
    ensures
        r@ == symbol.text(),
{
    match symbol {
        Symbol::Required => "!",
        Symbol::Flag => "?",
        Symbol::AllowEmpty => "*",
        Symbol::Index => "<num>:",
    }
}

impl SyntaxError {
    /// The message of the error.
    pub fn to_string(&self) -> (r: String)
        ensures
            r@ == self@.message(),
    {
        match self {
            SyntaxError::ExpectedLiteral(literal) => String::from_str("expected literal ").concat(
                literal.as_str(),
            ),
            SyntaxError::ExpectedNumber(found) => String::from_str(
                "expecting usize number, found ",
            ).concat(debug_string(found.as_str()).as_str()),
            SyntaxError::InvalidNumber => String::from_str("failed parsing usize number"),
            SyntaxError::ZeroIndex => String::from_str(
                "index 0 not allowed in positional arguments",
            ),
            SyntaxError::ShortInPositional => String::from_str(
                "short not allowed in positional arguments",
            ),
            SyntaxError::IncompatibleSymbols(first, second) => String::from_str(
                "incompatible symbols: `",
            ).concat(symbol_text(*first)).concat("` and `").concat(symbol_text(*second)).concat(
                "`",
            ),
        }
    }
}

/// What a scanning function returned is what the grammar gives: the same
/// rest and value, or the same error.
pub open spec fn scanned<T: View>(
    r: Result<(&str, T), SyntaxError>,
    expected: Result<(Seq<char>, T::V), SyntaxErrorView>,
) -> bool {
    match (r, expected) {
        (Ok((rest, value)), Ok((s, v))) => rest@ == s && value@ == v,
        (Err(e), Err(v)) => e@ == v,
        _ => false,
    }
}

/// Takes `literal` from the start of `input` and returns what follows it.
pub fn match_literal<'a>(literal: &str, input: &'a str) -> (r: Result<(&'a str, ()), SyntaxError>)
    ensures
        match (r, spec_literal(literal@, input@)) {
            (Ok((rest, _)), Ok(s)) => rest@ == s,
            (Err(e), Err(v)) => e@ == v,
            _ => false,
        },
{
    let len = input.unicode_len();
    let literal_len = literal.unicode_len();
    if literal_len > len {
        return Err(SyntaxError::ExpectedLiteral(literal.to_owned()));
    }
    let mut i: usize = 0;
    while i < literal_len
        invariant
            i <= literal_len <= len,
            len == input@.len(),
            literal_len == literal@.len(),
            forall|j: int| 0 <= j < i ==> literal@[j] == input@[j],
        decreases literal_len - i,
    {
        if literal.get_char(i) != input.get_char(i) {
            assert(input@.subrange(0, literal_len as int)[i as int] != literal@[i as int]);
            return Err(SyntaxError::ExpectedLiteral(literal.to_owned()));
        }
        i += 1;
    }
    assert(literal@ =~= input@.subrange(0, literal_len as int));
    Ok((input.substring_char(literal_len, len), ()))
}

/// Whether `c` ends a name.
fn ends_name(c: char) -> (r: bool)
    ensures
        r == is_name_end(c),
{
    c == '!' || c == '?' || c == '*' || c == ',' || c == '}'
}

/// Takes the text up to one of the characters `!`, `?`, `*`, `,` and `}`.
///
/// Returns what follows the text, and the text.
pub fn match_name(input: &str) -> (r: (&str, String))
    ensures
        r.0@ == spec_name(input@).0,
        r.1@ == spec_name(input@).1,
{
    let len = input.unicode_len();
    let mut end: usize = 0;
    while end < len && !ends_name(input.get_char(end))
        invariant
            end <= len,
            len == input@.len(),
            name_end(input@, 0) == name_end(input@, end as int),
        decreases len - end,
    {
        end += 1;
    }
    (input.substring_char(end, len), input.substring_char(0, end).to_owned())
}

/// Takes one of the modifiers `!`, `?` and `*` from the start of `input`.
///
/// Returns what follows it and the modifier, or the input where none stands
/// there.
pub fn match_symbol(input: &str) -> (r: Result<(&str, char), &str>)
    ensures
        match (r, spec_symbol(input@)) {
            (Ok((rest, symbol)), Some((s, c))) => rest@ == s && symbol == c,
            (Err(rest), None) => rest@ == input@,
            _ => false,
        },
{
    let len = input.unicode_len();
    if len == 0 {
        return Err(input);
    }
    let c = input.get_char(0);
    if c == '!' || c == '?' || c == '*' {
        Ok((input.substring_char(1, len), c))
    } else {
        Err(input)
    }
}

/// Whether text stops at position `i` of `input`.
fn stops_text(input: &str, i: usize, len: usize) -> (r: bool)
    requires
        i < len,
        len == input@.len(),
    ensures
        r == is_stop(input@, i as int),
{
    let c = input.get_char(i);
    c == '\\' || ((c == '#' || c == '{') && i + 1 < len && input.get_char(i + 1) == '{')
}

/// Takes the start of `input` up to a backslash or to one of `#{` and `{{`,
/// where the scan for text halts.
///
/// Returns what follows, and what was taken.
pub fn match_until_custom_arg_start(input: &str) -> (r: (&str, &str))
    ensures
        r.0@ == spec_text(input@).0,
        r.1@ == spec_text(input@).1,
{
    let len = input.unicode_len();
    let mut end: usize = 0;
    while end < len && !stops_text(input, end, len)
        invariant
            end <= len,
            len == input@.len(),
            text_end(input@, 0) == text_end(input@, end as int),
        decreases len - end,
    {
        end += 1;
    }
    (input.substring_char(end, len), input.substring_char(0, end))
}

/// Takes the text at the start of `input`, up to a backslash or to the
/// marker `#{`. Two braces `{{` are text.
///
/// Returns what follows the text, and the text.
pub fn match_text(input: &str) -> (r: (&str, &str))
    ensures
        r.0@ == spec_plain(input@).0,
        r.1@ == spec_plain(input@).1,
{
    let len = input.unicode_len();
    let mut end: usize = 0;
    let mut done = false;
    while !done
        invariant
            end <= len,
            len == input@.len(),
            plain_end(input@, 0) == plain_end(input@, end as int),
            done ==> plain_end(input@, end as int) == end,
        decreases 2 * (len - end) + (if done { 0int } else { 1int }),
    {
        let (_, run) = match_until_custom_arg_start(input.substring_char(end, len));
        let taken = run.unicode_len();
        proof {
            lemma_text_end(input@.subrange(end as int, len as int), 0);
        }
        let halt = end + taken;
        proof {
            let s = input@;
            let from = s.subrange(end as int, len as int);
            assert forall|j: int| end <= j < halt implies !is_marker(s, j) by {
                assert(!is_stop(from, j - end));
                assert(from[j - end] == s[j]);
                if j + 1 < len {
                    assert(from[j + 1 - end] == s[j + 1]);
                }
            }
            lemma_plain_run(s, end as int, halt as int);
            if halt < len {
                assert(is_stop(from, halt - end));
                assert(from[halt - end] == s[halt as int]);
                if s[halt as int] != '\\' {
                    assert(from[halt + 1 - end] == s[halt + 1]);
                }
            }
        }
        if halt < len && input.get_char(halt) == '{' {
            end = halt + 1;
        } else {
            end = halt;
            done = true;
        }
    }
    (input.substring_char(end, len), input.substring_char(0, end))
}

/// Takes a number from the start of `input`: numeric characters with a
/// further character after them, which write a decimal number that fits.
///
/// Returns what follows the number, and its value.
pub fn match_usize(input: &str) -> (r: Result<(&str, usize), SyntaxError>)
    ensures
        scanned(r, spec_usize(input@)),
{
    let len = input.unicode_len();
    let mut end: usize = 0;
    while end < len && input.get_char(end).is_numeric()
        invariant
            end <= len,
            len == input@.len(),
            digits_end(input@, 0) == digits_end(input@, end as int),
        decreases len - end,
    {
        end += 1;
    }
    if end == 0 || end == len {
        return Err(SyntaxError::ExpectedNumber(input.to_owned()));
    }
    let ghost digits = input@.take(end as int);
    let mut value: usize = 0;
    let mut i: usize = 0;
    while i < end
        invariant
            i <= end < len,
            0 < end == digits_end(input@, 0),
            len == input@.len(),
            digits == input@.take(end as int),
            decimal_value(digits.take(i as int)) == Some(value as nat),
        decreases end - i,
    {
        let c = input.get_char(i);
        proof {
            lemma_decimal_prefix(digits, i + 1);
            assert(digits.take(i + 1).drop_last() =~= digits.take(i as int));
            assert(digits.take(i + 1).last() == c);
        }
        if !(c >= '0' && c <= '9') {
            return Err(SyntaxError::InvalidNumber);
        }
        let digit = (c as u32 - '0' as u32) as usize;
        let next = match value.checked_mul(10) {
            Some(tens) => tens.checked_add(digit),
            None => None,
        };
        match next {
            Some(next) => {
                value = next;
            },
            None => {
                return Err(SyntaxError::InvalidNumber);
            },
        }
        i += 1;
    }
    assert(digits.take(end as int) =~= digits);
    Ok((input.substring_char(end, len), value))
}

/// Takes an index, `<digits>:`, from the start of `input`.
///
/// Returns what follows the colon, and the number.
pub fn match_num(input: &str) -> (r: Result<(&str, usize), SyntaxError>)
    ensures
        scanned(r, spec_num(input@)),
{
    proof {
        reveal_strlit(":");
        assert(":"@ =~= seq![':']);
    }
    let (next, num) = match match_usize(input) {
        Ok(found) => found,
        Err(e) => {
            return Err(e);
        },
    };
    match match_literal(":", next) {
        Ok((next, _)) => Ok((next, num)),
        Err(e) => Err(e),
    }
}

/// The modifiers after `symbol` is met, or the conflict it makes.
fn with_modifier(met: Modifiers, indexed: bool, symbol: char) -> (r: Result<Modifiers, SyntaxError>)
    ensures
        match (r, add_modifier(met, indexed, symbol)) {
            (Ok(next), Ok(m)) => next == m,
            (Err(e), Err(v)) => e@ == v,
            _ => false,
        },
{
    if symbol == '!' {
        if met.flag {
            return Err(SyntaxError::IncompatibleSymbols(Symbol::Required, Symbol::Flag));
        }
        Ok(Modifiers { required: true, allow_empty_values: met.allow_empty_values, flag: met.flag })
    } else if symbol == '?' {
        if met.required {
            return Err(SyntaxError::IncompatibleSymbols(Symbol::Flag, Symbol::Required));
        }
        if met.allow_empty_values {
            return Err(SyntaxError::IncompatibleSymbols(Symbol::Flag, Symbol::AllowEmpty));
        }
        if indexed {
            return Err(SyntaxError::IncompatibleSymbols(Symbol::Flag, Symbol::Index));
        }
        Ok(
            Modifiers {
                required: met.required,
                allow_empty_values: met.allow_empty_values,
                flag: true,
            },
        )
    } else {
        if met.flag {
            return Err(SyntaxError::IncompatibleSymbols(Symbol::AllowEmpty, Symbol::Flag));
        }
        Ok(Modifiers { required: met.required, allow_empty_values: true, flag: met.flag })
    }
}

/// Takes the run of modifiers at the start of `input`, in a placeholder that
/// has an index or has none.
///
/// Returns what follows the run and the modifiers met, or the first conflict.
pub fn match_modifiers(input: &str, indexed: bool) -> (r: Result<(&str, Modifiers), SyntaxError>)
    ensures
        match (r, spec_modifiers(input@, no_modifiers(), indexed)) {
            (Ok((rest, met)), Ok((s, m))) => rest@ == s && met == m,
            (Err(e), Err(v)) => e@ == v,
            _ => false,
        },
{
    let mut met = Modifiers { required: false, allow_empty_values: false, flag: false };
    let mut next = input;
    loop
        invariant
            spec_modifiers(input@, no_modifiers(), indexed) == spec_modifiers(next@, met, indexed),
        ensures
            spec_modifiers(input@, no_modifiers(), indexed) == Ok::<
                (Seq<char>, Modifiers),
                SyntaxErrorView,
            >((next@, met)),
        decreases next@.len(),
    {
        match match_symbol(next) {
            Ok((rest, symbol)) => {
                met = match with_modifier(met, indexed, symbol) {
                    Ok(met) => met,
                    Err(e) => {
                        return Err(e);
                    },
                };
                next = rest;
            },
            Err(_) => {
                break ;
            },
        }
    }
    Ok((next, met))
}

/// Takes an escaped marker with the text after it, or a placeholder, from
/// the start of `input`.
///
/// Returns what follows it, and the unit: text that begins with `#{`, or
/// the placeholder.
pub fn match_custom_arg(input: &str) -> (r: Result<(&str, Unit), SyntaxError>)
    ensures
        scanned(r, spec_custom_arg(input@)),
{
    proof {
        reveal_strlit("\\#{");
        reveal_strlit("#{");
        reveal_strlit(",");
        reveal_strlit("}");
        assert("\\#{"@ =~= seq!['\\', '#', '{']);
        assert("#{"@ =~= seq!['#', '{']);
        assert(","@ =~= seq![',']);
        assert("}"@ =~= seq!['}']);
    }
    if let Ok((next, _)) = match_literal("\\#{", input) {
        let (next, text) = match_text(next);
        return Ok((next, Unit::Text(String::from_str("#{").concat(text))));
    }
    let (next, _) = match match_literal("#{", input) {
        Ok(found) => found,
        Err(e) => {
            return Err(e);
        },
    };
    let (next, index) = match match_num(next) {
        Ok((next, index)) => (next, Some(index)),
        Err(_) => (next, None),
    };
    if let Some(0) = index {
        return Err(SyntaxError::ZeroIndex);
    }
    let (next, long) = match_name(next);
    let next = match match_literal(",", next) {
        Ok((next, _)) => next,
        Err(_) => next,
    };
    let (next, short) = match_name(next);

    if index.is_some() && !short.as_str().is_empty() {
        return Err(SyntaxError::ShortInPositional);
    }
    let name = if long.as_str().is_empty() {
        short.clone()
    } else {
        long.clone()
    };
    let (next, met) = match match_modifiers(next, index.is_some()) {
        Ok(found) => found,
        Err(e) => {
            return Err(e);
        },
    };
    let (next, _) = match match_literal("}", next) {
        Ok(found) => found,
        Err(e) => {
            return Err(e);
        },
    };
    let short = if short.as_str().is_empty() {
        None
    } else {
        Some(short.as_str().get_char(0))
    };
    let long = if long.as_str().is_empty() {
        None
    } else {
        Some(long)
    };
    let unit = if met.flag {
        Unit::Flag(ClapFlag { name, long, short })
    } else if let Some(index) = index {
        Unit::Positional(
            ClapPositional {
                name,
                allow_empty_values: met.allow_empty_values,
                required: met.required,
                index,
            },
        )
    } else {
        Unit::Option(
            ClapOption {
                name,
                long,
                short,
                allow_empty_values: met.allow_empty_values,
                required: met.required,
            },
        )
    };
    Ok((next, unit))
}

/// Takes one unit from the start of `input`: text as far as it runs, else
/// an escaped backslash, an escaped marker or a placeholder.
///
/// Returns what follows the unit, and the unit.
pub fn match_unit(input: &str) -> (r: Result<(&str, Unit), SyntaxError>)
    ensures
        scanned(r, spec_unit(input@)),
{
    proof {
        reveal_strlit("\\\\");
        reveal_strlit("\\");
        assert("\\\\"@ =~= seq!['\\', '\\']);
        assert("\\"@ =~= seq!['\\']);
    }
    let (next, text) = match_text(input);
    if text.is_empty() {
        proof {
            lemma_plain_end(input@, 0);
        }
        assert(next@ =~= input@);
        if let Ok((next, _)) = match_literal("\\\\", next) {
            Ok((next, Unit::Text(String::from_str("\\"))))
        } else {
            match_custom_arg(next)
        }
    } else {
        Ok((next, Unit::Text(text.to_owned())))
    }
}

/// What a compiling function returned is what the grammar gives: the same
/// units, or the same error.
pub open spec fn compiled(
    r: Result<CompiledCommand, SyntaxError>,
    expected: Result<Seq<UnitView>, SyntaxErrorView>,
) -> bool {
    match (r, expected) {
        (Ok(units), Ok(v)) => units_view(units@) == v,
        (Err(e), Err(v)) => e@ == v,
        _ => false,
    }
}

/// Takes units from `input` until nothing is left.
pub fn match_args(input: &str) -> (r: Result<((), CompiledCommand), SyntaxError>)
    ensures
        match (r, spec_parse(input@)) {
            (Ok((_, units)), Ok(v)) => units_view(units@) == v,
            (Err(e), Err(v)) => e@ == v,
            _ => false,
        },
{
    let mut result: Vec<Unit> = Vec::new();
    let mut next = input;
    assert(units_view(result@) + spec_parse(input@)->Ok_0 =~= spec_parse(input@)->Ok_0);
    while !next.is_empty()
        invariant
            spec_parse(input@) == after(units_view(result@), spec_parse(next@)),
        decreases next@.len(),
    {
        let ghost done = units_view(result@);
        let (rest, unit) = match match_unit(next) {
            Ok(found) => found,
            Err(e) => {
                return Err(e);
            },
        };
        proof {
            lemma_unit_consumes(next@);
        }
        result.push(unit);
        proof {
            assert(units_view(result@) =~= done.push(unit@));
            match spec_parse(rest@) {
                Ok(units) => {
                    assert(done + (seq![unit@] + units) =~= done.push(unit@) + units);
                },
                Err(_) => {},
            }
        }
        next = rest;
    }
    assert(units_view(result@) + Seq::<UnitView>::empty() =~= units_view(result@));
    Ok(((), result))
}

/// Compiles a template command into its units.
///
/// Text outside placeholders is kept as it is. The command compiles only if
/// every placeholder in it does; else the first error from the left is
/// returned. No positional placeholder in the result has the index 0.
pub fn parse(command: &str) -> (r: Result<CompiledCommand, SyntaxError>)
    ensures
        compiled(r, spec_parse(command@)),
        r matches Ok(units) ==> forall|i: int|
            0 <= i < units.len() ==> one_based(#[trigger] units_view(units@)[i]),
{
    proof {
        lemma_parse_one_based(command@);
    }
    match match_args(command) {
        Ok((_, result)) => Ok(result),
        Err(e) => Err(e),
    }
}

} // verus!
