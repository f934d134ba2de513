//! A payload tree written out as JSON text.
//!
//! The text of a tree is fixed by the tree: no white space, the members of
//! a record in their order, an integer in decimal, a decimal by its own
//! text where that is a JSON number and as `null` where it is not. Inside
//! a string the quotation mark and the backslash are escaped with a
//! backslash, a control character below U+0020 as `\u00` and two
//! hexadecimal digits, and every other character stands for itself.
use crate::payload::{Member, RawValue, Tree};
use crate::text::{append_decimal, decimal, push_char};
use vstd::prelude::*;

verus! {

/// The character of one hexadecimal digit, in lower case.
pub open spec fn hex_digit(d: int) -> char {
    if d == 0 {
        '0'
    } else if d == 1 {
        '1'
    } else if d == 2 {
        '2'
    } else if d == 3 {
        '3'
    } else if d == 4 {
        '4'
    } else if d == 5 {
        '5'
    } else if d == 6 {
        '6'
    } else if d == 7 {
        '7'
    } else if d == 8 {
        '8'
    } else if d == 9 {
        '9'
    } else if d == 10 {
        'a'
    } else if d == 11 {
        'b'
    } else if d == 12 {
        'c'
    } else if d == 13 {
        'd'
    } else if d == 14 {
        'e'
    } else {
        'f'
    }
}

/// One character as it stands inside a JSON string.
pub open spec fn escaped(c: char) -> Seq<char> {
    if c == '"' {
        seq!['\\', '"']
    } else if c == '\\' {
        seq!['\\', '\\']
    } else if (c as u32) < 0x20 {
        seq!['\\', 'u', '0', '0', hex_digit(c as int / 16), hex_digit(c as int % 16)]
    } else {
        seq![c]
    }
}

/// The characters of a text, each as it stands inside a JSON string.
pub open spec fn escaped_text(text: Seq<char>) -> Seq<char>
    decreases text.len(),
{
    if text.len() == 0 {
        Seq::empty()
    } else {
        escaped_text(text.drop_last()) + escaped(text.last())
    }
}

/// A text as a JSON string.
pub open spec fn quoted(text: Seq<char>) -> Seq<char> {
    seq!['"'] + escaped_text(text) + seq!['"']
}

/// Where the reading of a number literal stands.
#[derive(Clone, Copy, Debug, PartialEq, Eq, Structural)]
pub enum NumberState {
    /// Nothing read yet.
    Start,
    /// A minus sign.
    Minus,
    /// A single zero as the whole integer part.
    Zero,
    /// An integer part that begins with 1 to 9.
    Integer,
    /// The point after the integer part.
    Point,
    /// At least one digit after the point.
    Fraction,
    /// The `e` or `E` of an exponent.
    Exponent,
    /// The sign of an exponent.
    ExponentSign,
    /// At least one digit of an exponent.
    ExponentDigits,
    /// No number literal begins like this.
    Failed,
}

pub open spec fn is_digit(c: char) -> bool {
    '0' <= c <= '9'
}

impl NumberState {
    /// The state after one more character.
    pub open spec fn step(self, c: char) -> NumberState {
        match self {
            NumberState::Start => if c == '-' {
                NumberState::Minus
            } else if c == '0' {
                NumberState::Zero
            } else if is_digit(c) {
                NumberState::Integer
            } else {
                NumberState::Failed
            },
            NumberState::Minus => if c == '0' {
                NumberState::Zero
            } else if is_digit(c) {
                NumberState::Integer
            } else {
                NumberState::Failed
            },
            NumberState::Zero => if c == '.' {
                NumberState::Point
            } else if c == 'e' || c == 'E' {
                NumberState::Exponent
            } else {
                NumberState::Failed
            },
            NumberState::Integer => if is_digit(c) {
                NumberState::Integer
            } else if c == '.' {
                NumberState::Point
            } else if c == 'e' || c == 'E' {
                NumberState::Exponent
            } else {
                NumberState::Failed
            },
            NumberState::Point => if is_digit(c) {
                NumberState::Fraction
            } else {
                NumberState::Failed
            },
            NumberState::Fraction => if is_digit(c) {
                NumberState::Fraction
            } else if c == 'e' || c == 'E' {
                NumberState::Exponent
            } else {
                NumberState::Failed
            },
            NumberState::Exponent => if c == '+' || c == '-' {
                NumberState::ExponentSign
            } else if is_digit(c) {
                NumberState::ExponentDigits
            } else {
                NumberState::Failed
            },
            NumberState::ExponentSign => if is_digit(c) {
                NumberState::ExponentDigits
            } else {
                NumberState::Failed
            },
            NumberState::ExponentDigits => if is_digit(c) {
                NumberState::ExponentDigits
            } else {
                NumberState::Failed
            },
            NumberState::Failed => NumberState::Failed,
        }
    }

    /// Whether a number literal may end here.
    pub open spec fn complete(self) -> bool {
        self == NumberState::Zero || self == NumberState::Integer || self == NumberState::Fraction
            || self == NumberState::ExponentDigits
    }

    /// The state after a whole text.
    pub open spec fn after(text: Seq<char>) -> NumberState
        decreases text.len(),
    {
        if text.len() == 0 {
            NumberState::Start
        } else {
            Self::after(text.drop_last()).step(text.last())
        }
    }

    fn advance(self, c: char) -> (next: NumberState)
        ensures
            next == self.step(c),
    {
        let digit = '0' <= c && c <= '9';
        let e = c == 'e' || c == 'E';
        match self {
            NumberState::Start => if c == '-' {
                NumberState::Minus
            } else if c == '0' {
                NumberState::Zero
            } else if digit {
                NumberState::Integer
            } else {
                NumberState::Failed
            },
            NumberState::Minus => if c == '0' {
                NumberState::Zero
            } else if digit {
                NumberState::Integer
            } else {
                NumberState::Failed
            },
            NumberState::Zero => if c == '.' {
                NumberState::Point
            } else if e {
                NumberState::Exponent
            } else {
                NumberState::Failed
            },
            NumberState::Integer => if digit {
                NumberState::Integer
            } else if c == '.' {
                NumberState::Point
            } else if e {
                NumberState::Exponent
            } else {
                NumberState::Failed
            },
            NumberState::Point => if digit {
                NumberState::Fraction
            } else {
                NumberState::Failed
            },
            NumberState::Fraction => if digit {
                NumberState::Fraction
            } else if e {
                NumberState::Exponent
            } else {
                NumberState::Failed
            },
            NumberState::Exponent => if c == '+' || c == '-' {
                NumberState::ExponentSign
            } else if digit {
                NumberState::ExponentDigits
            } else {
                NumberState::Failed
            },
            NumberState::ExponentSign => if digit {
                NumberState::ExponentDigits
            } else {
                NumberState::Failed
            },
            NumberState::ExponentDigits => if digit {
                NumberState::ExponentDigits
            } else {
                NumberState::Failed
            },
            NumberState::Failed => NumberState::Failed,
        }
    }
}

/// Whether a text is a number as JSON writes one: an optional minus sign,
/// an integer part without leading zeros, an optional fraction, an
/// optional exponent.
pub open spec fn number_literal(text: Seq<char>) -> bool {
    NumberState::after(text).complete()
}

/// Says whether a text is a number as JSON writes one.
pub fn is_number_literal(text: &str) -> (yes: bool)
    ensures
        yes == number_literal(text@),
{
    let mut state = NumberState::Start;
    assert(text@.take(0) =~= Seq::<char>::empty());
    for c in it: text.chars()
        invariant
            it.seq() == text@,
            state == NumberState::after(text@.take(it.index() as int)),
    {
        proof {
            let upto = text@.take(it.index() as int + 1);
            assert(upto.drop_last() =~= text@.take(it.index() as int));
            assert(upto.last() == c);
        }
        state = state.advance(c);
    }
    assert(text@.take(text@.len() as int) =~= text@);
    match state {
        NumberState::Zero => true,
        NumberState::Integer => true,
        NumberState::Fraction => true,
        NumberState::ExponentDigits => true,
        _ => false,
    }
}

/// The comma that stands before every item but the first.
pub open spec fn comma_before(position: int) -> Seq<char> {
    if position > 0 {
        seq![',']
    } else {
        Seq::empty()
    }
}

impl Tree {
    /// The tree as JSON text.
    pub open spec fn json(self) -> Seq<char>
        decreases self,
    {
        match self {
            Tree::Null => "null"@,
            Tree::Bool(flag) => if flag {
                "true"@
            } else {
                "false"@
            },
            Tree::Integer(n) => decimal(n),
            Tree::Decimal(text) => if number_literal(text) {
                text
            } else {
                "null"@
            },
            Tree::Text(text) => quoted(text),
            Tree::List(items) => seq!['['] + items_json(items) + seq![']'],
            Tree::Record(members) => seq!['{'] + members_json(members) + seq!['}'],
        }
    }
}

/// The items of a list as JSON text, with commas between them.
pub open spec fn items_json(items: Seq<Tree>) -> Seq<char>
    decreases items,
{
    if items.len() == 0 {
        Seq::empty()
    } else {
        items_json(items.drop_last()) + comma_before(items.len() - 1) + items.last().json()
    }
}

/// The members of a record as JSON text, with commas between them.
pub open spec fn members_json(members: Seq<Member>) -> Seq<char>
    decreases members,
{
    if members.len() == 0 {
        Seq::empty()
    } else {
        members_json(members.drop_last()) + comma_before(members.len() - 1) + quoted(
            members.last().name,
        ) + seq![':'] + members.last().value.json()
    }
}

fn hex_char(d: u32) -> (c: char)
    requires
        d < 16,
    ensures
        c == hex_digit(d as int),
{
    if d == 0 {
        '0'
    } else if d == 1 {
        '1'
    } else if d == 2 {
        '2'
    } else if d == 3 {
        '3'
    } else if d == 4 {
        '4'
    } else if d == 5 {
        '5'
    } else if d == 6 {
        '6'
    } else if d == 7 {
        '7'
    } else if d == 8 {
        '8'
    } else if d == 9 {
        '9'
    } else if d == 10 {
        'a'
    } else if d == 11 {
        'b'
    } else if d == 12 {
        'c'
    } else if d == 13 {
        'd'
    } else if d == 14 {
        'e'
    } else {
        'f'
    }
}

/// Appends one character as it stands inside a JSON string.
fn write_escaped(out: &mut String, c: char)
    ensures
        final(out)@ == old(out)@ + escaped(c),
{
    if c == '"' {
        push_char(out, '\\');
        push_char(out, '"');
    } else if c == '\\' {
        push_char(out, '\\');
        push_char(out, '\\');
    } else if (c as u32) < 0x20 {
        let code: u32 = c as u32;
        push_char(out, '\\');
        push_char(out, 'u');
        push_char(out, '0');
        push_char(out, '0');
        push_char(out, hex_char(code / 16));
        push_char(out, hex_char(code % 16));
    } else {
        push_char(out, c);
    }
    assert(out@ =~= old(out)@ + escaped(c));
}

/// Appends a text as a JSON string.
fn write_quoted(out: &mut String, text: &str)
    ensures
        final(out)@ == old(out)@ + quoted(text@),
{
    push_char(out, '"');
    let ghost start = out@;
    assert(text@.take(0) =~= Seq::<char>::empty());
    for c in it: text.chars()
        invariant
            it.seq() == text@,
            out@ == start + escaped_text(text@.take(it.index() as int)),
    {
        proof {
            let upto = text@.take(it.index() as int + 1);
            assert(upto.drop_last() =~= text@.take(it.index() as int));
            assert(upto.last() == c);
        }
        write_escaped(out, c);
    }
    assert(text@.take(text@.len() as int) =~= text@);
    push_char(out, '"');
    assert(out@ =~= old(out)@ + quoted(text@));
}

/// Appends a tree as JSON text.
fn write_json(out: &mut String, tree: &RawValue)
    ensures
        final(out)@ == old(out)@ + tree.view().json(),
    decreases tree,
{
    match tree {
        RawValue::Null => {
            out.append("null");
        },
        RawValue::Bool(flag) => {
            if *flag {
                out.append("true");
            } else {
                out.append("false");
            }
        },
        RawValue::Integer(n) => {
            append_decimal(out, *n);
        },
        RawValue::Decimal(text) => {
            if is_number_literal(text.as_str()) {
                out.append(text.as_str());
            } else {
                out.append("null");
            }
        },
        RawValue::Text(text) => {
            write_quoted(out, text.as_str());
        },
        RawValue::List(items) => {
            push_char(out, '[');
            let ghost start = out@;
            let ghost views = tree.view()->List_0;
            proof {
                RawValue::lemma_list_view(*items);
                assert(views.take(0) =~= Seq::<Tree>::empty());
            }
            let mut i: usize = 0;
            while i < items.len()
                invariant
                    i <= items.len(),
                    tree == RawValue::List(*items),
                    views == tree.view()->List_0,
                    views.len() == items.len(),
                    out@ == start + items_json(views.take(i as int)),
                decreases items.len() - i,
            {
                proof {
                    RawValue::lemma_list_view(*items);
                    vstd::std_specs::vec::axiom_vec_index_decreases(*items, i as int);
                    assert(decreases_to!(tree => tree->List_0));
                    assert(decreases_to!(tree => items[i as int]));
                    let upto = views.take(i as int + 1);
                    assert(upto.drop_last() =~= views.take(i as int));
                    assert(upto.last() == items@[i as int].view());
                }
                if i > 0 {
                    push_char(out, ',');
                }
                write_json(out, &items[i]);
                assert(out@ =~= start + items_json(views.take(i as int + 1)));
                i = i + 1;
            }
            assert(views.take(i as int) =~= views);
            push_char(out, ']');
            assert(out@ =~= old(out)@ + tree.view().json());
        },
        RawValue::Record(members) => {
            push_char(out, '{');
            let ghost start = out@;
            let ghost views = tree.view()->Record_0;
            proof {
                RawValue::lemma_record_view(*members);
                assert(views.take(0) =~= Seq::<Member>::empty());
            }
            let mut i: usize = 0;
            while i < members.len()
                invariant
                    i <= members.len(),
                    tree == RawValue::Record(*members),
                    views == tree.view()->Record_0,
                    views.len() == members.len(),
                    out@ == start + members_json(views.take(i as int)),
                decreases members.len() - i,
            {
                proof {
                    RawValue::lemma_record_view(*members);
                    vstd::std_specs::vec::axiom_vec_index_decreases(*members, i as int);
                    assert(decreases_to!(tree => tree->Record_0));
                    assert(decreases_to!(members[i as int] => members[i as int].value));
                    assert(decreases_to!(tree => members[i as int].value));
                    let upto = views.take(i as int + 1);
                    assert(upto.drop_last() =~= views.take(i as int));
                    assert(upto.last() == (Member {
                        name: members@[i as int].name@,
                        value: members@[i as int].value.view(),
                    }));
                }
                if i > 0 {
                    push_char(out, ',');
                }
                write_quoted(out, members[i].name.as_str());
                push_char(out, ':');
                write_json(out, &members[i].value);
                assert(out@ =~= start + members_json(views.take(i as int + 1)));
                i = i + 1;
            }
            assert(views.take(i as int) =~= views);
            push_char(out, '}');
            assert(out@ =~= old(out)@ + tree.view().json());
        },
    }
}

impl RawValue {
    /// The tree as JSON text.
    pub fn to_json(&self) -> (text: String)
        ensures
            text@ == self.view().json(),
    {
        let mut text = String::new();
        write_json(&mut text, self);
        assert(text@ =~= self.view().json());
        text
    }
}

} // verus!
