//! The parser for the markup: from characters to the declared components.
use vstd::prelude::*;
use crate::template::component::{
    attribute_views, template_views, ComponentTemplate, TemplateAttribute, TemplateView,
};
use crate::template::forest::{
    forest_listing, indentation_error, indentation_error_in, lemma_adopt, lemma_error_stays,
    lemma_listing_prefix, lemma_open_prefix, level, listing, listing_of, open_listing,
};
use crate::template::grammar::{
    attribute_at, attributes_at, columns, declaration_at, declarations_at, delimited, digit_value,
    digits_value, fraction_value, in_class, is_digit, line_at, line_feeds, name_at, number_at,
    run, value_at, values_at, CharClass, DeclarationView,
};
use crate::template::value::{value_views, TemplateValue, ValueView};
use crate::text::{characters, natural_text, push_natural, substring};

verus! {

/// What is wrong with a document.
#[derive(Debug, Clone, Copy, PartialEq, Eq, Structural)]
pub enum ParseErrorKind {
    /// A declaration that the grammar does not accept starts on the line.
    Syntax,
    /// The indentation of the line is not a multiple of four columns.
    BadIndentation,
    /// The first component of the document is indented.
    FirstIndentation,
    /// The line is indented by more than one level more than the component before it.
    ExcessiveIndentation,
    /// A template without a component.
    NoComponent,
    /// A template with more than one root component.
    MultipleRoots,
}

/// Why a document was not accepted, and on which line. The line is 0 where the error is
/// about the document as a whole.
#[derive(Debug, Clone, Copy, PartialEq, Eq, Structural)]
pub struct ParseError {
    pub kind: ParseErrorKind,
    pub line: usize,
}

/// The text that describes an error.
pub open spec fn message_text(error: ParseError) -> Seq<char> {
    match error.kind {
        ParseErrorKind::Syntax => "Unexpected text in the declaration at line "@ + natural_text(
            error.line as nat,
        ),
        ParseErrorKind::BadIndentation =>
            "Bad amount of indentation spacing, must be divisible by 4, at line "@ + natural_text(
            error.line as nat,
        ),
        ParseErrorKind::FirstIndentation => "First component starts at wrong indentation"@,
        ParseErrorKind::ExcessiveIndentation => "Excessive increase in indentation at line "@
            + natural_text(error.line as nat),
        ParseErrorKind::NoComponent => "No component found in template"@,
        ParseErrorKind::MultipleRoots =>
            "More than one root component found in template, only one allowed"@,
    }
}

impl ParseError {
    /// The text that describes the error.
    pub fn message(&self) -> (text: String)
        ensures
            text@ == message_text(*self),
    {
        match self.kind {
            ParseErrorKind::Syntax => {
                let mut text = "Unexpected text in the declaration at line ".to_owned();
                push_natural(&mut text, self.line as u64);
                text
            },
            ParseErrorKind::BadIndentation => {
                let mut text =
                    "Bad amount of indentation spacing, must be divisible by 4, at line ".to_owned();
                push_natural(&mut text, self.line as u64);
                text
            },
            ParseErrorKind::FirstIndentation => {
                "First component starts at wrong indentation".to_owned()
            },
            ParseErrorKind::ExcessiveIndentation => {
                let mut text = "Excessive increase in indentation at line ".to_owned();
                push_natural(&mut text, self.line as u64);
                text
            },
            ParseErrorKind::NoComponent => "No component found in template".to_owned(),
            ParseErrorKind::MultipleRoots => {
                "More than one root component found in template, only one allowed".to_owned()
            },
        }
    }
}

/// A component as it is declared on its line: the component without children, and its
/// indentation in whole levels of four columns and the columns beyond them.
#[derive(Debug)]
pub struct Declaration {
    component: ComponentTemplate,
    indentation: usize,
    odd_columns: u8,
}

impl View for Declaration {
    type V = DeclarationView;

    closed spec fn view(&self) -> DeclarationView {
        DeclarationView {
            component: self.component@,
            columns: (self.indentation * 4 + self.odd_columns) as nat,
        }
    }
}

impl Declaration {
    #[verifier::type_invariant]
    spec fn inv(&self) -> bool {
        self.component.children@.len() == 0 && self.odd_columns < 4
    }

    /// The declaration of a component of the given class, style class and attributes on
    /// the given line, indented by `indentation` levels of four columns and `odd_columns`
    /// columns more, of which only the remainder by four counts.
    pub fn new(
        class: String,
        style_class: Option<String>,
        attributes: Vec<TemplateAttribute>,
        line: usize,
        indentation: usize,
        odd_columns: u8,
    ) -> (declaration: Self)
        ensures
            declaration@ == (DeclarationView {
                component: TemplateView {
                    class: class@,
                    style_class: crate::template::component::optional_text(style_class),
                    attributes: attribute_views(attributes@),
                    children: Seq::empty(),
                    line: line as nat,
                },
                columns: (indentation * 4 + odd_columns % 4) as nat,
            }),
    {
        let component = ComponentTemplate {
            class,
            style_class,
            attributes,
            children: Vec::new(),
            line,
        };
        assert(component@.children =~= Seq::<TemplateView>::empty());
        Declaration { component, indentation, odd_columns: odd_columns % 4 }
    }

    /// The component that is declared, without children.
    pub fn component(&self) -> (component: &ComponentTemplate)
        ensures
            component@ == self@.component,
    {
        &self.component
    }

    /// The whole levels of four columns by which the declaration is indented.
    pub fn indentation(&self) -> (indentation: usize)
        ensures
            indentation == self@.columns / 4,
    {
        proof {
            use_type_invariant(self);
        }
        self.indentation
    }

    /// The columns of the indentation beyond its whole levels.
    pub fn odd_columns(&self) -> (odd: u8)
        ensures
            odd == self@.columns % 4,
    {
        proof {
            use_type_invariant(self);
        }
        self.odd_columns
    }
}

/// The contents of the declarations of a sequence.
pub open spec fn declaration_views(declarations: Seq<Declaration>) -> Seq<DeclarationView> {
    Seq::new(declarations.len(), |i: int| declarations[i]@)
}

fn is_letter(c: char) -> (b: bool)
    ensures
        b == crate::template::grammar::is_letter(c),
{
    ('a' <= c && c <= 'z') || ('A' <= c && c <= 'Z')
}

fn class_has(class: CharClass, c: char) -> (b: bool)
    ensures
        b == in_class(class, c),
{
    match class {
        CharClass::Indent => c == ' ' || c == '\t',
        CharClass::Inline => c == ' ' || c == '\t' || c == '\r',
        CharClass::Space => c == ' ' || c == '\t' || c == '\r' || c == '\n',
        CharClass::Name => is_letter(c) || ('0' <= c && c <= '9') || c == '_' || c == '-',
        CharClass::Digit => '0' <= c && c <= '9',
        CharClass::Text => c != '"',
        CharClass::Script => c != '}',
        CharClass::Condition => c != '?',
    }
}

/// The position behind the characters of `class` that follow each other from `start` on.
fn skip(s: &Vec<char>, start: usize, class: CharClass) -> (end: usize)
    requires
        start <= s@.len(),
    ensures
        end == start + run(s@, start as int, class),
        start <= end <= s@.len(),
        forall|k: int| start <= k < end ==> in_class(class, #[trigger] s@[k]),
        end < s@.len() ==> !in_class(class, s@[end as int]),
{
    let mut i: usize = start;
    while i < s.len() && class_has(class, s[i])
        invariant
            start <= i <= s@.len(),
            start + run(s@, start as int, class) == i + run(s@, i as int, class),
            forall|k: int| start <= k < i ==> in_class(class, #[trigger] s@[k]),
        decreases s@.len() - i,
    {
        i += 1;
    }
    i
}

/// The position behind the name that starts at `i`, if one does.
fn parse_name(s: &Vec<char>, i: usize) -> (r: Option<usize>)
    requires
        i <= s@.len(),
    ensures
        match name_at(s@, i as int) {
            Some(k) => r == Some((i + k) as usize) && i < i + k <= s@.len(),
            None => r is None,
        },
{
    if i < s.len() && (is_letter(s[i]) || s[i] == '_') {
        Some(skip(s, i + 1, CharClass::Name))
    } else {
        None
    }
}

fn digit_of(c: char) -> (d: u64)
    requires
        is_digit(c),
    ensures
        d == digit_value(c),
        d <= 9,
{
    if c == '0' {
        0
    } else if c == '1' {
        1
    } else if c == '2' {
        2
    } else if c == '3' {
        3
    } else if c == '4' {
        4
    } else if c == '5' {
        5
    } else if c == '6' {
        6
    } else if c == '7' {
        7
    } else if c == '8' {
        8
    } else {
        9
    }
}

/// The largest number that `read_digits` reads.
pub const DIGITS_LIMIT: u64 = 1_000_000_000_000_000_000;

/// The number that the digits from `from` up to `to` stand for, up to `DIGITS_LIMIT`.
fn read_digits(s: &Vec<char>, from: usize, to: usize) -> (r: Option<u64>)
    requires
        from <= to <= s@.len(),
        forall|k: int| from <= k < to ==> is_digit(#[trigger] s@[k]),
    ensures
        digits_value(s@, from as int, to as int) >= 0,
        match r {
            Some(value) => value == digits_value(s@, from as int, to as int) && value
                <= DIGITS_LIMIT,
            None => digits_value(s@, from as int, to as int) > DIGITS_LIMIT,
        },
{
    let mut value: u64 = 0;
    let mut over = false;
    let mut i: usize = from;
    while i < to
        invariant
            from <= i <= to <= s@.len(),
            forall|k: int| from <= k < to ==> is_digit(#[trigger] s@[k]),
            digits_value(s@, from as int, i as int) >= 0,
            !over ==> value == digits_value(s@, from as int, i as int) && value <= DIGITS_LIMIT,
            over ==> digits_value(s@, from as int, i as int) > DIGITS_LIMIT,
        decreases to - i,
    {
        let d = digit_of(s[i]);
        if !over {
            let next: u64 = value * 10 + d;
            if next > DIGITS_LIMIT {
                over = true;
            } else {
                value = next;
            }
        }
        i += 1;
    }
    if over {
        None
    } else {
        Some(value)
    }
}

/// The digit at position `i` if that is before `to`, else zero.
fn digit_or_zero(s: &Vec<char>, i: usize, to: usize) -> (d: u64)
    requires
        to <= s@.len(),
        i < to ==> is_digit(s@[i as int]),
    ensures
        d == crate::template::grammar::digit_or_zero(s@, i as int, to as int),
        d <= 9,
{
    if i < to {
        digit_of(s[i])
    } else {
        0
    }
}

/// The number at position `i`, with the position behind it.
fn parse_number(s: &Vec<char>, i: usize) -> (r: Option<(TemplateValue, usize)>)
    requires
        i < s@.len(),
    ensures
        match number_at(s@, i as int) {
            Some((value, n)) => r matches Some((got, end)) && got@ == value && end == i + n && end
                <= s@.len(),
            None => r is None,
        },
{
    let len = s.len();
    let negative = s[i] == '-';
    let first: usize = if negative {
        i + 1
    } else {
        i
    };
    let end = skip(s, first, CharClass::Digit);
    if end == first {
        return None;
    }
    let magnitude = read_digits(s, first, end);
    if end < s.len() && s[end] == '.' {
        let last = skip(s, end + 1, CharClass::Digit);
        if last > end + 1 {
            let from = end + 1;
            let d1 = digit_or_zero(s, from, last);
            let d2 = if last - from > 1 {
                digit_or_zero(s, from + 1, last)
            } else {
                0
            };
            let d3 = if last - from > 2 {
                digit_or_zero(s, from + 2, last)
            } else {
                0
            };
            let d4 = if last - from > 3 {
                digit_or_zero(s, from + 3, last)
            } else {
                0
            };
            let fraction: u64 = d1 * 100 + d2 * 10 + d3 + if d4 >= 5 {
                1
            } else {
                0
            };
            assert(fraction == fraction_value(s@, from as int, last as int));
            return match magnitude {
                Some(whole) => {
                    let thousandths: u128 = (whole as u128) * 1000 + (fraction as u128);
                    if thousandths > 0x7fff_ffff_ffff_ffffu128 {
                        None
                    } else {
                        let thousandths = thousandths as i64;
                        Some(
                            (
                                TemplateValue::Float(
                                    if negative {
                                        -thousandths
                                    } else {
                                        thousandths
                                    },
                                ),
                                last,
                            ),
                        )
                    }
                },
                None => None,
            };
        }
    }
    let value: i64 = match magnitude {
        Some(whole) => {
            if whole > 0x8000_0000u64 {
                return None;
            }
            if negative {
                -(whole as i64)
            } else {
                whole as i64
            }
        },
        None => {
            return None;
        },
    };
    if value > 0x7fff_ffffi64 {
        return None;
    }
    if end < s.len() && s[end] == '%' {
        Some((TemplateValue::Percentage(value as i32), end + 1))
    } else {
        Some((TemplateValue::Integer(value as i32), end))
    }
}

/// The text from `from` up to the first character that is not of `class`, with the position
/// behind that character.
fn parse_delimited(s: &Vec<char>, from: usize, class: CharClass) -> (r: Option<(String, usize)>)
    requires
        from <= s@.len(),
    ensures
        match delimited(s@, from as int, class) {
            Some((text, n)) => r matches Some((got, end)) && got@ == text && end == from + n
                && end <= s@.len(),
            None => r is None,
        },
{
    let close = skip(s, from, class);
    if close < s.len() {
        Some((substring(s, from, close), close + 1))
    } else {
        None
    }
}

/// The result `r` of reading a list from a later position, as the result of reading it from
/// an earlier one: with the elements `before` in front, and `offset` more in length.
pub open spec fn continued<T>(before: Seq<T>, offset: int, r: Option<(Seq<T>, nat)>) -> Option<
    (Seq<T>, nat),
> {
    match r {
        Some((rest, n)) => Some((before + rest, (offset + n) as nat)),
        None => None,
    }
}

/// The value at position `i`, with the position behind it.
fn parse_value(s: &Vec<char>, i: usize) -> (r: Option<(TemplateValue, usize)>)
    requires
        i <= s@.len(),
    ensures
        match value_at(s@, i as int) {
            Some((value, n)) => r matches Some((got, end)) && got@ == value && end == i + n && end
                <= s@.len(),
            None => r is None,
        },
    decreases s@.len() - i, 0nat,
{
    if i >= s.len() {
        return None;
    }
    let c = s[i];
    if c == '"' {
        match parse_delimited(s, i + 1, CharClass::Text) {
            Some((text, end)) => Some((TemplateValue::String(text), end)),
            None => None,
        }
    } else if c == '_' {
        Some((TemplateValue::Default, i + 1))
    } else if c == '#' || c == '$' {
        if i + 1 < s.len() && s[i + 1] == '{' {
            match parse_delimited(s, i + 2, CharClass::Script) {
                Some((script, end)) => Some(
                    (
                        if c == '#' {
                            TemplateValue::ScriptValue(script)
                        } else {
                            TemplateValue::ScriptStatement(script)
                        },
                        end,
                    ),
                ),
                None => None,
            }
        } else {
            None
        }
    } else if c == '(' {
        match parse_values(s, i + 1) {
            Some((values, end)) => {
                let tuple = TemplateValue::Tuple(values);
                assert(tuple@ matches ValueView::Tuple(views) && views =~= value_views(values@));
                Some((tuple, end))
            },
            None => None,
        }
    } else {
        parse_number(s, i)
    }
}

/// The values of a tuple from position `start`, which is behind the opening parenthesis, up
/// to the closing parenthesis, with the position behind it.
fn parse_values(s: &Vec<char>, start: usize) -> (r: Option<(Vec<TemplateValue>, usize)>)
    requires
        start <= s@.len(),
    ensures
        match values_at(s@, start as int) {
            Some((values, n)) => r matches Some((got, end)) && value_views(got@) == values && end
                == start + n && end <= s@.len(),
            None => r is None,
        },
    decreases s@.len() - start, 1nat,
{
    let mut values: Vec<TemplateValue> = Vec::new();
    let mut i: usize = start;
    loop
        invariant
            start <= i <= s@.len(),
            values_at(s@, start as int) == continued(
                value_views(values@),
                i - start,
                values_at(s@, i as int),
            ),
        decreases s@.len() - i,
    {
        let a = skip(s, i, CharClass::Space);
        if a >= s.len() {
            return None;
        }
        if s[a] == ')' {
            assert(value_views(values@) + Seq::<ValueView>::empty() =~= value_views(values@));
            return Some((values, a + 1));
        }
        let (value, b) = match parse_value(s, a) {
            Some(parsed) => parsed,
            None => {
                return None;
            },
        };
        let c = skip(s, b, CharClass::Space);
        let ghost before = value_views(values@);
        values.push(value);
        assert(value_views(values@) =~= before + seq![value@]);
        if c < s.len() && s[c] == ',' {
            assert forall|rest: Seq<ValueView>|
                before + (seq![value@] + rest) =~= #[trigger] (value_views(values@) + rest) by {}
            i = c + 1;
        } else if c < s.len() && s[c] == ')' {
            return Some((values, c + 1));
        } else {
            return None;
        }
    }
}

/// The attribute at position `i`, with the position behind it.
fn parse_attribute(s: &Vec<char>, i: usize) -> (r: Option<(TemplateAttribute, usize)>)
    requires
        i <= s@.len(),
    ensures
        match attribute_at(s@, i as int) {
            Some((attribute, n)) => r matches Some((got, end)) && got@ == attribute && end == i
                + n && i < end <= s@.len(),
            None => r is None,
        },
{
    let after_key = match parse_name(s, i) {
        Some(after_key) => after_key,
        None => {
            return None;
        },
    };
    let b = skip(s, after_key, CharClass::Space);
    if !(b < s.len() && s[b] == ':') {
        return None;
    }
    let c = skip(s, b + 1, CharClass::Space);
    let (value, d) = match parse_value(s, c) {
        Some(parsed) => parsed,
        None => {
            return None;
        },
    };
    let e = skip(s, d, CharClass::Space);
    if e < s.len() && s[e] == '?' {
        match parse_delimited(s, e + 1, CharClass::Condition) {
            Some((condition, end)) => Some(
                (
                    TemplateAttribute {
                        key: substring(s, i, after_key),
                        value,
                        script_conditional: Some(condition),
                    },
                    end,
                ),
            ),
            None => None,
        }
    } else {
        Some(
            (
                TemplateAttribute {
                    key: substring(s, i, after_key),
                    value,
                    script_conditional: None,
                },
                d,
            ),
        )
    }
}

/// The attributes of a block from position `start`, which is behind the opening brace, up to
/// the closing brace, with the position behind it.
fn parse_attributes(s: &Vec<char>, start: usize) -> (r: Option<
    (Vec<TemplateAttribute>, usize),
>)
    requires
        start <= s@.len(),
    ensures
        match attributes_at(s@, start as int) {
            Some((attributes, n)) => r matches Some((got, end)) && attribute_views(got@)
                == attributes && end == start + n && start < end <= s@.len(),
            None => r is None,
        },
{
    let mut attributes: Vec<TemplateAttribute> = Vec::new();
    let mut i: usize = start;
    loop
        invariant
            start <= i <= s@.len(),
            attributes_at(s@, start as int) == continued(
                attribute_views(attributes@),
                i - start,
                attributes_at(s@, i as int),
            ),
        decreases s@.len() - i,
    {
        let a = skip(s, i, CharClass::Space);
        if a >= s.len() {
            return None;
        }
        if s[a] == '}' {
            assert(attribute_views(attributes@) + Seq::<
                crate::template::component::AttributeView,
            >::empty() =~= attribute_views(attributes@));
            return Some((attributes, a + 1));
        }
        let (attribute, b) = match parse_attribute(s, a) {
            Some(parsed) => parsed,
            None => {
                return None;
            },
        };
        let c = skip(s, b, CharClass::Space);
        let ghost before = attribute_views(attributes@);
        attributes.push(attribute);
        assert(attribute_views(attributes@) =~= before + seq![attribute@]);
        if c < s.len() && s[c] == ',' {
            assert forall|rest: Seq<crate::template::component::AttributeView>|
                before + (seq![attribute@] + rest) =~= #[trigger] (attribute_views(attributes@)
                    + rest) by {}
            i = c + 1;
        } else if c < s.len() && s[c] == '}' {
            return Some((attributes, c + 1));
        } else {
            return None;
        }
    }
}

/// The indentation from `from` up to `to`, where a space spans one column and a tab four:
/// its whole levels of four columns, and the columns beyond them.
fn count_columns(s: &Vec<char>, from: usize, to: usize) -> (r: (usize, u8))
    requires
        from <= to <= s@.len(),
    ensures
        r.0 * 4 + r.1 == columns(s@, from as int, to as int),
        r.1 < 4,
{
    let mut levels: usize = 0;
    let mut odd: u8 = 0;
    let mut i: usize = from;
    while i < to
        invariant
            from <= i <= to <= s@.len(),
            levels * 4 + odd == columns(s@, from as int, i as int),
            odd < 4,
            levels <= i - from,
        decreases to - i,
    {
        if s[i] == '\t' {
            levels += 1;
        } else if odd == 3 {
            levels += 1;
            odd = 0;
        } else {
            odd += 1;
        }
        i += 1;
    }
    (levels, odd)
}

/// The declaration of a component at position `i`, the start of line `line`, with the
/// position behind the end of its last line.
fn parse_component(s: &Vec<char>, i: usize, line: usize) -> (r: Option<(Declaration, usize)>)
    requires
        i <= s@.len(),
        line == line_at(s@, i as int),
    ensures
        match declaration_at(s@, i as int) {
            Some((declaration, n)) => r matches Some((got, end)) && got@ == declaration && end
                == i + n && i < end <= s@.len(),
            None => r is None,
        },
{
    let a = skip(s, i, CharClass::Indent);
    let b = match parse_name(s, a) {
        Some(b) => b,
        None => {
            return None;
        },
    };
    let styled = b < s.len() && s[b] == '.';
    let mut style_class: Option<String> = None;
    let mut b2 = b;
    if styled {
        match parse_name(s, b + 1) {
            Some(end) => {
                style_class = Some(substring(s, b + 1, end));
                b2 = end;
            },
            None => {
                return None;
            },
        }
    }
    let c = skip(s, b2, CharClass::Inline);
    let block = c < s.len() && s[c] == '{';
    let mut attributes: Vec<TemplateAttribute> = Vec::new();
    let mut d = c;
    if block {
        match parse_attributes(s, c + 1) {
            Some((parsed, end)) => {
                attributes = parsed;
                d = end;
            },
            None => {
                return None;
            },
        }
    }
    let e = skip(s, d, CharClass::Inline);
    if e < s.len() && s[e] != '\n' {
        return None;
    }
    let (indentation, odd_columns) = count_columns(s, i, a);
    proof {
        if !block {
            assert(attribute_views(attributes@) =~= Seq::empty());
        }
    }
    let end = if e < s.len() {
        e + 1
    } else {
        e
    };
    Some(
        (
            Declaration::new(
                substring(s, a, b),
                style_class,
                attributes,
                line,
                indentation,
                odd_columns,
            ),
            end,
        ),
    )
}

/// Line feeds are counted range by range.
pub proof fn lemma_line_feeds_split(s: Seq<char>, from: int, mid: int, to: int)
    requires
        from <= mid <= to,
    ensures
        line_feeds(s, from, to) == line_feeds(s, from, mid) + line_feeds(s, mid, to),
        line_feeds(s, from, to) <= to - from,
    decreases to - mid,
{
    if mid < to {
        lemma_line_feeds_split(s, from, mid, to - 1);
    } else {
        lemma_line_feeds_bound(s, from, to);
    }
}

proof fn lemma_line_feeds_bound(s: Seq<char>, from: int, to: int)
    requires
        from <= to,
    ensures
        line_feeds(s, from, to) <= to - from,
    decreases to - from,
{
    if from < to {
        lemma_line_feeds_bound(s, from, to - 1);
    }
}

/// How many line feeds there are from `from` up to `to`.
fn count_line_feeds(s: &Vec<char>, from: usize, to: usize) -> (n: usize)
    requires
        from <= to <= s@.len(),
    ensures
        n == line_feeds(s@, from as int, to as int),
        n <= to - from,
{
    let mut n: usize = 0;
    let mut i: usize = from;
    while i < to
        invariant
            from <= i <= to <= s@.len(),
            n == line_feeds(s@, from as int, i as int),
            n <= i - from,
        decreases to - i,
    {
        if s[i] == '\n' {
            n += 1;
        }
        i += 1;
    }
    n
}

/// The result `r` of reading the declarations from a later position, as the result of
/// reading them from an earlier one, with the declarations `before` in front.
pub open spec fn after(before: Seq<DeclarationView>, r: Result<Seq<DeclarationView>, nat>) -> Result<
    Seq<DeclarationView>,
    nat,
> {
    match r {
        Ok(rest) => Ok(before + rest),
        Err(line) => Err(line),
    }
}

/// The parser for the grammar of the markup.
pub struct TemplateParser;

impl TemplateParser {
    /// The components that `text` declares, in their order, or a syntax error with the
    /// line on which the first declaration starts that the grammar does not accept.
    pub fn parse(text: &str) -> (r: Result<Vec<Declaration>, ParseError>)
        ensures
            match declarations_at(text@, 0) {
                Ok(declarations) => r matches Ok(got) && declaration_views(got@) == declarations,
                Err(line) => r == Err::<Vec<Declaration>, ParseError>(
                    ParseError { kind: ParseErrorKind::Syntax, line: line as usize },
                ) && line <= usize::MAX,
            },
    {
        let s = characters(text);
        let mut declarations: Vec<Declaration> = Vec::new();
        let mut i: usize = 0;
        let mut feeds: usize = 0;
        loop
            invariant
                s@ == text@,
                i <= s@.len(),
                feeds == line_feeds(s@, 0, i as int),
                feeds <= i,
                declarations_at(s@, 0) == after(
                    declaration_views(declarations@),
                    declarations_at(s@, i as int),
                ),
            decreases s@.len() - i,
        {
            let b = skip(&s, i, CharClass::Inline);
            if b >= s.len() {
                assert(declaration_views(declarations@) + Seq::<DeclarationView>::empty()
                    =~= declaration_views(declarations@));
                return Ok(declarations);
            }
            let end = if s[b] == '\n' {
                b + 1
            } else {
                let line = feeds + 1;
                match parse_component(&s, i, line) {
                    Some((declaration, end)) => {
                        let ghost before = declaration_views(declarations@);
                        declarations.push(declaration);
                        proof {
                            assert(declaration_views(declarations@) =~= before
                                + seq![declaration@]);
                            assert forall|rest: Seq<DeclarationView>|
                                before + (seq![declaration@] + rest) =~= #[trigger] (
                                declaration_views(declarations@) + rest) by {}
                        }
                        end
                    },
                    None => {
                        return Err(ParseError { kind: ParseErrorKind::Syntax, line });
                    },
                }
            };
            proof {
                lemma_line_feeds_split(s@, 0, i as int, end as int);
            }
            feeds = feeds + count_line_feeds(&s, i, end);
            i = end;
        }
    }
}

/// The level of the indentation of a declaration: a quarter of its columns. An indentation
/// that is not divisible by four is an error that names the line of the declaration; it is
/// never rounded down.
pub fn parse_indentation(declaration: &Declaration) -> (r: Result<usize, ParseError>)
    ensures
        declaration@.columns % 4 != 0 ==> r == Err::<usize, ParseError>(
            ParseError {
                kind: ParseErrorKind::BadIndentation,
                line: declaration@.component.line as usize,
            },
        ),
        declaration@.columns % 4 == 0 ==> r == Ok::<usize, ParseError>(
            (declaration@.columns / 4) as usize,
        ),
{
    proof {
        use_type_invariant(declaration);
    }
    // Fail indentation that isn't divisible by 4
    if declaration.odd_columns != 0 {
        Err(ParseError { kind: ParseErrorKind::BadIndentation, line: declaration.component.line })
    } else {
        Ok(declaration.indentation)
    }
}

/// The contents of the components that are done and of those that are still open, listed.
pub open spec fn listed(
    components: Seq<ComponentTemplate>,
    parent_stack: Seq<ComponentTemplate>,
) -> Seq<DeclarationView> {
    forest_listing(template_views(components)) + open_listing(
        template_views(parent_stack),
        parent_stack.len(),
    )
}

/// Closes the component that was opened last: it becomes the last child of the one that was
/// opened before it or, where there is none, the last of the components that are done.
#[verifier::rlimit(60)]
fn finish_sibling(
    parent_stack: &mut Vec<ComponentTemplate>,
    components: &mut Vec<ComponentTemplate>,
)
    ensures
        listed(final(components)@, final(parent_stack)@) == listed(
            old(components)@,
            old(parent_stack)@,
        ),
        old(parent_stack)@.len() == 0 ==> final(parent_stack)@ == old(parent_stack)@
            && final(components)@ == old(components)@,
        old(parent_stack)@.len() > 0 ==> final(parent_stack)@.len() == old(parent_stack)@.len()
            - 1,
        old(parent_stack)@.len() > 1 ==> final(components)@ == old(components)@,
        old(parent_stack)@.len() == 1 ==> final(components)@.len() == old(components)@.len() + 1,
{
    let ghost stack0 = template_views(parent_stack@);
    let ghost done0 = template_views(components@);
    // If nothing is open, no component has been declared so far, and there is nothing to
    // close
    if let Some(sibling) = parent_stack.pop() {
        let ghost stack1 = template_views(parent_stack@);
        let ghost m = parent_stack@.len();
        proof {
            assert(stack0[m as int] == sibling@);
            lemma_open_prefix(stack0, stack1, m);
        }
        // Without an open component before it, the component is a root of the document
        if let Some(mut parent) = parent_stack.pop() {
            let ghost before = parent@;
            let ghost stack2 = template_views(parent_stack@);
            proof {
                parent.lemma_children();
                lemma_open_prefix(stack1, stack2, (m - 1) as nat);
            }
            parent.children.push(sibling);
            proof {
                parent.lemma_children();
                assert(parent@.children =~= before.children.push(sibling@));
                assert(parent@.attributes == before.attributes);
                lemma_adopt(before, parent@, sibling@, (m - 1) as nat);
            }
            parent_stack.push(parent);
            proof {
                let stack3 = template_views(parent_stack@);
                lemma_open_prefix(stack3, stack2, (m - 1) as nat);
                assert(stack3[m - 1] == parent@);
                assert(open_listing(stack3, m) =~= open_listing(stack0, m + 1));
            }
        } else {
            components.push(sibling);
            proof {
                let done1 = template_views(components@);
                lemma_listing_prefix(done1, done0, done0.len(), 0);
                assert(done1[done0.len() as int] == sibling@);
                assert(open_listing(stack1, 0) =~= Seq::<DeclarationView>::empty());
                assert(open_listing(stack0, 1) =~= listing(sibling@, 0));
                assert(listed(components@, parent_stack@) =~= forest_listing(done0) + listing(
                    sibling@,
                    0,
                ));
            }
        }
    }
}

/// Builds the forest of the declared components from their indentation: a component is a
/// child of the nearest component before it that is indented by one level less.
///
/// Fails with the first error in the indentation. Else the listing of the forest is the
/// list of the declarations.
#[verifier::rlimit(60)]
pub fn parse_document(declarations: Vec<Declaration>) -> (r: Result<
    Vec<ComponentTemplate>,
    ParseError,
>)
    ensures
        match indentation_error(declaration_views(declarations@)) {
            Some(e) => r == Err::<Vec<ComponentTemplate>, ParseError>(e),
            None => r matches Ok(forest) && forest_listing(template_views(forest@))
                == declaration_views(declarations@),
        },
{
    let ghost ds = declaration_views(declarations@);
    let mut components: Vec<ComponentTemplate> = Vec::new();
    let mut parent_stack: Vec<ComponentTemplate> = Vec::new();
    let mut last_indentation: usize = 0;
    let ghost mut k: int = 0;
    assert(listed(components@, parent_stack@) =~= ds.subrange(0, 0));
    for declaration in it: declarations
        invariant
            it.seq() == declarations@,
            ds == declaration_views(declarations@),
            k == it.index(),
            indentation_error_in(ds, k as nat) is None,
            listed(components@, parent_stack@) == ds.subrange(0, k),
            k == 0 ==> parent_stack@.len() == 0 && components@.len() == 0 && last_indentation
                == 0,
            k > 0 ==> parent_stack@.len() == last_indentation + 1 && last_indentation == level(
                ds[k - 1],
            ),
            parent_stack@.len() <= k,
    {
        let ghost view = declaration@;
        assert(view == ds[k]);
        proof {
            use_type_invariant(&declaration);
        }
        let indentation = match parse_indentation(&declaration) {
            Ok(indentation) => indentation,
            Err(e) => {
                proof {
                    lemma_error_stays(ds, k, ds.len());
                }
                return Err(e);
            },
        };
        let Declaration { component, indentation: _, odd_columns: _ } = declaration;
        assert(level(view) == indentation);
        // Prevent first component starting at wrong indentation level
        if components.len() == 0 && parent_stack.len() == 0 {
            if indentation != 0 {
                proof {
                    lemma_error_stays(ds, k, ds.len());
                }
                return Err(
                    ParseError { kind: ParseErrorKind::FirstIndentation, line: component.line },
                );
            }
        }
        // If our indentation has increased by more than one, we need to give an error for that
        if indentation > last_indentation && indentation - last_indentation > 1 {
            proof {
                lemma_error_stays(ds, k, ds.len());
            }
            return Err(
                ParseError { kind: ParseErrorKind::ExcessiveIndentation, line: component.line },
            );
        }
        // If we're at the same indentation level as the previous component,
        // the previous component is our sibling, not parent
        if indentation == last_indentation {
            finish_sibling(&mut parent_stack, &mut components);
        }
        // If we are at lower indentation level, unroll the stack to the level we need to be at
        if indentation < last_indentation {
            let unroll_amount = parent_stack.len() - indentation;
            let mut done: usize = 0;
            while done < unroll_amount
                invariant
                    done <= unroll_amount,
                    unroll_amount == last_indentation + 1 - indentation,
                    indentation < last_indentation,
                    parent_stack@.len() == last_indentation + 1 - done,
                    0 <= k <= ds.len(),
                    listed(components@, parent_stack@) == ds.subrange(0, k),
                decreases unroll_amount - done,
            {
                finish_sibling(&mut parent_stack, &mut components);
                done += 1;
            }
        }
        proof {
            assert(parent_stack@.len() == indentation);
            let stack0 = template_views(parent_stack@);
            let stack1 = stack0.push(component@);
            lemma_open_prefix(stack1, stack0, indentation as nat);
            component.lemma_children();
            assert(component@.children =~= Seq::<TemplateView>::empty());
            assert(crate::template::forest::childless(component@) == component@);
            assert(listing_of(component@.children, 0, (indentation + 1) as nat) =~= Seq::<
                DeclarationView,
            >::empty());
            assert(listing(component@, indentation as nat) =~= seq![view]);
            assert(open_listing(stack1, (indentation + 1) as nat) =~= open_listing(
                stack0,
                indentation as nat,
            ) + seq![view]);
            assert(ds.subrange(0, k + 1) =~= ds.subrange(0, k) + seq![view]);
            assert(template_views(parent_stack@.push(component)) =~= stack1);
        }
        parent_stack.push(component);
        last_indentation = indentation;
        proof {
            k = k + 1;
        }
    }
    assert(ds.subrange(0, k) =~= ds);
    // Close what is still open
    while parent_stack.len() > 0
        invariant
            listed(components@, parent_stack@) == ds,
        decreases parent_stack@.len(),
    {
        finish_sibling(&mut parent_stack, &mut components);
    }
    assert(open_listing(template_views(parent_stack@), 0) =~= Seq::<DeclarationView>::empty());
    assert(forest_listing(template_views(components@)) =~= ds);
    Ok(components)
}

} // verus!


