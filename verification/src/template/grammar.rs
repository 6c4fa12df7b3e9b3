//! The grammar of the markup, as functions on sequences of characters.
//!
//! A document is a sequence of lines. A line is blank or declares a component:
//! indentation, a class name, optionally a point and a style class, optionally a block
//! of attributes in braces. Inside a block, attributes are separated by commas and the
//! last may be followed by one; line breaks count as spaces there. An attribute is a key,
//! a colon, a value and optionally a conditional between question marks. A value is a
//! string in double quotes, a whole number, a number with a fraction, a whole number with
//! a percent sign, a tuple of values in parentheses, an underscore, a script expression in
//! `#{` and `}` or a script statement in `${` and `}`.
use vstd::prelude::*;
use crate::template::component::{AttributeView, TemplateView};
use crate::template::value::ValueView;

verus! {

/// The classes of characters that the grammar tells apart.
#[derive(Clone, Copy, Debug, PartialEq, Eq, Structural)]
pub enum CharClass {
    /// A space or a tab: what indents a line.
    Indent,
    /// A space, a tab or a carriage return: what may stand inside a line.
    Inline,
    /// A space, a tab, a carriage return or a line feed.
    Space,
    /// A letter, a digit, an underscore or a hyphen: what a name continues with.
    Name,
    /// A decimal digit.
    Digit,
    /// Anything but a double quote: the inside of a string.
    Text,
    /// Anything but a closing brace: the inside of a script.
    Script,
    /// Anything but a question mark: the inside of a conditional.
    Condition,
}

pub open spec fn is_letter(c: char) -> bool {
    ('a' <= c && c <= 'z') || ('A' <= c && c <= 'Z')
}

pub open spec fn is_digit(c: char) -> bool {
    '0' <= c && c <= '9'
}

/// Whether a name can start with `c`: a letter or an underscore.
pub open spec fn is_name_start(c: char) -> bool {
    is_letter(c) || c == '_'
}

/// Whether `c` belongs to `class`.
pub open spec fn in_class(class: CharClass, c: char) -> bool {
    match class {
        CharClass::Indent => c == ' ' || c == '\t',
        CharClass::Inline => c == ' ' || c == '\t' || c == '\r',
        CharClass::Space => c == ' ' || c == '\t' || c == '\r' || c == '\n',
        CharClass::Name => is_letter(c) || is_digit(c) || c == '_' || c == '-',
        CharClass::Digit => is_digit(c),
        CharClass::Text => c != '"',
        CharClass::Script => c != '}',
        CharClass::Condition => c != '?',
    }
}

/// How many characters of `class` follow each other from position `i` on.
pub open spec fn run(s: Seq<char>, i: int, class: CharClass) -> nat
    decreases s.len() - i,
{
    if 0 <= i < s.len() && in_class(class, s[i]) {
        1 + run(s, i + 1, class)
    } else {
        0
    }
}

/// The length of the name at position `i`, if one starts there.
pub open spec fn name_at(s: Seq<char>, i: int) -> Option<nat> {
    if 0 <= i < s.len() && is_name_start(s[i]) {
        Some(1 + run(s, i + 1, CharClass::Name))
    } else {
        None
    }
}

/// The number that the digit `c` stands for.
pub open spec fn digit_value(c: char) -> int {
    c as int - '0' as int
}

/// The number that the digits from `from` up to `to` stand for.
pub open spec fn digits_value(s: Seq<char>, from: int, to: int) -> int
    decreases to - from,
{
    if to <= from {
        0
    } else {
        digits_value(s, from, to - 1) * 10 + digit_value(s[to - 1])
    }
}

/// The digit at position `i` if that is before `to`, else zero.
pub open spec fn digit_or_zero(s: Seq<char>, i: int, to: int) -> int {
    if i < to {
        digit_value(s[i])
    } else {
        0
    }
}

/// The thousandths that the digits of a fraction from `from` up to `to` stand for, rounded
/// to the nearest whole number, halves upwards.
pub open spec fn fraction_value(s: Seq<char>, from: int, to: int) -> int {
    digit_or_zero(s, from, to) * 100 + digit_or_zero(s, from + 1, to) * 10 + digit_or_zero(
        s,
        from + 2,
        to,
    ) + if digit_or_zero(s, from + 3, to) >= 5 {
        1int
    } else {
        0int
    }
}

/// The number at position `i`: an optional minus sign and digits, followed by a point and
/// digits for a number with a fraction, by a percent sign for a percentage, or by neither
/// for a whole number. With it comes its length. Whole numbers and percentages have 32 bits,
/// and a number with a fraction must fit 64 bits in thousandths.
pub open spec fn number_at(s: Seq<char>, i: int) -> Option<(ValueView, nat)> {
    let negative = 0 <= i < s.len() && s[i] == '-';
    let sign: nat = if negative {
        1
    } else {
        0
    };
    let first = i + sign;
    let whole = run(s, first, CharClass::Digit);
    let end = first + whole;
    let magnitude = digits_value(s, first, end);
    let value = if negative {
        -magnitude
    } else {
        magnitude
    };
    if whole == 0 {
        None
    } else if end < s.len() && s[end] == '.' && run(s, end + 1, CharClass::Digit) > 0 {
        let digits = run(s, end + 1, CharClass::Digit);
        let thousandths = magnitude * 1000 + fraction_value(s, end + 1, end + 1 + digits);
        if thousandths > i64::MAX {
            None
        } else {
            Some(
                (
                    ValueView::Float(
                        if negative {
                            -thousandths
                        } else {
                            thousandths
                        },
                    ),
                    sign + whole + 1 + digits,
                ),
            )
        }
    } else if !(i32::MIN <= value <= i32::MAX) {
        None
    } else if end < s.len() && s[end] == '%' {
        Some((ValueView::Percentage(value), sign + whole + 1))
    } else {
        Some((ValueView::Integer(value), sign + whole))
    }
}

/// The text between an opening delimiter that ends before `from` and the first character
/// that is not of `class`, which closes it. With it comes the length from `from` to behind
/// the closing character.
pub open spec fn delimited(s: Seq<char>, from: int, class: CharClass) -> Option<(Seq<char>, nat)> {
    let inside = run(s, from, class);
    if 0 <= from && from + inside < s.len() {
        Some((s.subrange(from, from + inside), inside + 1))
    } else {
        None
    }
}

/// The value at position `i`, with its length.
pub open spec fn value_at(s: Seq<char>, i: int) -> Option<(ValueView, nat)>
    decreases s.len() - i, 0nat,
{
    if !(0 <= i < s.len()) {
        None
    } else if s[i] == '"' {
        match delimited(s, i + 1, CharClass::Text) {
            Some((text, n)) => Some((ValueView::String(text), 1 + n)),
            None => None,
        }
    } else if s[i] == '_' {
        Some((ValueView::Default, 1))
    } else if s[i] == '#' || s[i] == '$' {
        if i + 1 < s.len() && s[i + 1] == '{' {
            match delimited(s, i + 2, CharClass::Script) {
                Some((script, n)) => Some(
                    (
                        if s[i] == '#' {
                            ValueView::ScriptValue(script)
                        } else {
                            ValueView::ScriptStatement(script)
                        },
                        2 + n,
                    ),
                ),
                None => None,
            }
        } else {
            None
        }
    } else if s[i] == '(' {
        match values_at(s, i + 1) {
            Some((values, n)) => Some((ValueView::Tuple(values), 1 + n)),
            None => None,
        }
    } else {
        number_at(s, i)
    }
}

/// The values of a tuple from position `i`, which is behind the opening parenthesis or
/// behind a comma, up to the closing parenthesis, with the length up to behind it.
pub open spec fn values_at(s: Seq<char>, i: int) -> Option<(Seq<ValueView>, nat)>
    decreases s.len() - i, 1nat,
{
    let a = i + run(s, i, CharClass::Space);
    if !(0 <= i && a < s.len()) {
        None
    } else if s[a] == ')' {
        Some((Seq::empty(), (a + 1 - i) as nat))
    } else {
        match value_at(s, a) {
            None => None,
            Some((value, n)) => {
                let c = a + n + run(s, a + n, CharClass::Space);
                if c < s.len() && s[c] == ',' {
                    match values_at(s, c + 1) {
                        Some((rest, m)) => Some((seq![value] + rest, (c + 1 - i + m) as nat)),
                        None => None,
                    }
                } else if c < s.len() && s[c] == ')' {
                    Some((seq![value], (c + 1 - i) as nat))
                } else {
                    None
                }
            },
        }
    }
}

/// The attribute at position `i`, with its length.
pub open spec fn attribute_at(s: Seq<char>, i: int) -> Option<(AttributeView, nat)> {
    match name_at(s, i) {
        None => None,
        Some(k) => {
            let b = i + k + run(s, i + k, CharClass::Space);
            if b < s.len() && s[b] == ':' {
                let c = b + 1 + run(s, b + 1, CharClass::Space);
                match value_at(s, c) {
                    None => None,
                    Some((value, n)) => {
                        let d = c + n;
                        let e = d + run(s, d, CharClass::Space);
                        if e < s.len() && s[e] == '?' {
                            match delimited(s, e + 1, CharClass::Condition) {
                                Some((condition, m)) => Some(
                                    (
                                        AttributeView {
                                            key: s.subrange(i, i + k),
                                            value,
                                            script_conditional: Some(condition),
                                        },
                                        (e + 1 + m - i) as nat,
                                    ),
                                ),
                                None => None,
                            }
                        } else {
                            Some(
                                (
                                    AttributeView {
                                        key: s.subrange(i, i + k),
                                        value,
                                        script_conditional: None,
                                    },
                                    (d - i) as nat,
                                ),
                            )
                        }
                    },
                }
            } else {
                None
            }
        },
    }
}

/// The attributes of a block from position `i`, which is behind the opening brace or
/// behind a comma, up to the closing brace, with the length up to behind it.
pub open spec fn attributes_at(s: Seq<char>, i: int) -> Option<(Seq<AttributeView>, nat)>
    decreases s.len() - i,
{
    let a = i + run(s, i, CharClass::Space);
    if !(0 <= i && a < s.len()) {
        None
    } else if s[a] == '}' {
        Some((Seq::empty(), (a + 1 - i) as nat))
    } else {
        match attribute_at(s, a) {
            None => None,
            Some((attribute, n)) => {
                let c = a + n + run(s, a + n, CharClass::Space);
                if c < s.len() && s[c] == ',' {
                    match attributes_at(s, c + 1) {
                        Some((rest, m)) => Some(
                            (seq![attribute] + rest, (c + 1 - i + m) as nat),
                        ),
                        None => None,
                    }
                } else if c < s.len() && s[c] == '}' {
                    Some((seq![attribute], (c + 1 - i) as nat))
                } else {
                    None
                }
            },
        }
    }
}

/// How many columns the indentation from `from` up to `to` spans: one for a space and four
/// for a tab.
pub open spec fn columns(s: Seq<char>, from: int, to: int) -> nat
    decreases to - from,
{
    if to <= from {
        0
    } else {
        columns(s, from, to - 1) + if s[to - 1] == '\t' {
            4nat
        } else {
            1nat
        }
    }
}

/// How many line feeds there are from `from` up to `to`.
pub open spec fn line_feeds(s: Seq<char>, from: int, to: int) -> nat
    decreases to - from,
{
    if to <= from {
        0
    } else {
        line_feeds(s, from, to - 1) + if s[to - 1] == '\n' {
            1nat
        } else {
            0nat
        }
    }
}

/// The number of the line that position `i` is on, the first line being line 1.
pub open spec fn line_at(s: Seq<char>, i: int) -> nat {
    1 + line_feeds(s, 0, i)
}

/// A component as it is declared on its line: the component without children, and the
/// columns of its indentation.
pub struct DeclarationView {
    pub component: TemplateView,
    pub columns: nat,
}

/// The declaration of a component at position `i`, the start of a line, with its length
/// up to behind the end of its last line.
pub open spec fn declaration_at(s: Seq<char>, i: int) -> Option<(DeclarationView, nat)> {
    let a = i + run(s, i, CharClass::Indent);
    match name_at(s, a) {
        None => None,
        Some(k) => {
            let b = a + k;
            let styled = b < s.len() && s[b] == '.';
            let style = name_at(s, b + 1);
            if styled && style is None {
                None
            } else {
                let b2 = if styled {
                    b + 1 + style->0
                } else {
                    b
                };
                let c = b2 + run(s, b2, CharClass::Inline);
                let block = c < s.len() && s[c] == '{';
                let attributes = attributes_at(s, c + 1);
                if block && attributes is None {
                    None
                } else {
                    let d = if block {
                        c + 1 + attributes.unwrap().1
                    } else {
                        c
                    };
                    let e = d + run(s, d, CharClass::Inline);
                    if e < s.len() && s[e] != '\n' {
                        None
                    } else {
                        Some(
                            (
                                DeclarationView {
                                    component: TemplateView {
                                        class: s.subrange(a, b),
                                        style_class: if styled {
                                            Some(s.subrange(b + 1, b2))
                                        } else {
                                            None
                                        },
                                        attributes: if block {
                                            attributes.unwrap().0
                                        } else {
                                            Seq::empty()
                                        },
                                        children: Seq::empty(),
                                        line: line_at(s, i),
                                    },
                                    columns: columns(s, i, a),
                                },
                                if e < s.len() {
                                    (e + 1 - i) as nat
                                } else {
                                    (e - i) as nat
                                },
                            ),
                        )
                    }
                }
            }
        },
    }
}

/// The declarations of the document from position `i`, the start of a line, on; or the
/// line on which a declaration starts that the grammar does not accept.
pub open spec fn declarations_at(s: Seq<char>, i: int) -> Result<Seq<DeclarationView>, nat>
    decreases s.len() - i,
{
    let b = i + run(s, i, CharClass::Inline);
    if !(0 <= i && b < s.len()) {
        Ok(Seq::empty())
    } else if s[b] == '\n' {
        declarations_at(s, b + 1)
    } else {
        match declaration_at(s, i) {
            None => Err(line_at(s, i)),
            Some((declaration, n)) => if n == 0 || i + n > s.len() {
                Err(line_at(s, i))
            } else {
                match declarations_at(s, i + n) {
                    Ok(rest) => Ok(seq![declaration] + rest),
                    Err(line) => Err(line),
                }
            },
        }
    }
}

} // verus!
