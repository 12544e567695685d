//! The machine as a line of text.

use vstd::prelude::*;
use vstd::string::StringExecFns;

verus! {

/// The character for a hexadecimal digit.
pub open spec fn digit(d: nat) -> char {
    if d == 0 {
        '0'
    } else if d == 1 {
        '1'
    } else if d == 2 {
        '2'
    } else if d == 3 {
        '3'
    } else if d == 4 {
        '4'
    } else if d == 5 {
        '5'
    } else if d == 6 {
        '6'
    } else if d == 7 {
        '7'
    } else if d == 8 {
        '8'
    } else if d == 9 {
        '9'
    } else if d == 10 {
        'a'
    } else if d == 11 {
        'b'
    } else if d == 12 {
        'c'
    } else if d == 13 {
        'd'
    } else if d == 14 {
        'e'
    } else {
        'f'
    }
}

/// A number in hexadecimal, without leading zeros and in lower case.
pub open spec fn hex(n: nat) -> Seq<char>
    decreases n,
{
    if n < 16 {
        seq![digit(n)]
    } else {
        hex(n / 16).push(digit(n % 16))
    }
}

/// The words of a stack in hexadecimal, bottom first, with a comma and a
/// space between them.
pub open spec fn words_text(stack: Seq<u64>) -> Seq<char>
    decreases stack.len(),
{
    if stack.len() == 0 {
        Seq::empty()
    } else if stack.len() == 1 {
        hex(stack[0] as nat)
    } else {
        words_text(stack.drop_last()) + ", "@ + hex(stack.last() as nat)
    }
}

/// The line that describes a machine: its program counter and its stack,
/// both in hexadecimal.
pub open spec fn vm_text(pc: u64, stack: Seq<u64>) -> Seq<char> {
    "DwarfVm { pc: 0x"@ + hex(pc as nat) + ", stack: ["@ + words_text(stack) + "] }"@
}

/// The text of one hexadecimal digit.
fn digit_text(d: u8) -> (r: &'static str)
    requires
        d < 16,
    ensures
        r@ == seq![digit(d as nat)],
{
    proof {
        reveal_strlit("0");
        reveal_strlit("1");
        reveal_strlit("2");
        reveal_strlit("3");
        reveal_strlit("4");
        reveal_strlit("5");
        reveal_strlit("6");
        reveal_strlit("7");
        reveal_strlit("8");
        reveal_strlit("9");
        reveal_strlit("a");
        reveal_strlit("b");
        reveal_strlit("c");
        reveal_strlit("d");
        reveal_strlit("e");
        reveal_strlit("f");
    }
    let r = if d == 0 {
        "0"
    } else if d == 1 {
        "1"
    } else if d == 2 {
        "2"
    } else if d == 3 {
        "3"
    } else if d == 4 {
        "4"
    } else if d == 5 {
        "5"
    } else if d == 6 {
        "6"
    } else if d == 7 {
        "7"
    } else if d == 8 {
        "8"
    } else if d == 9 {
        "9"
    } else if d == 10 {
        "a"
    } else if d == 11 {
        "b"
    } else if d == 12 {
        "c"
    } else if d == 13 {
        "d"
    } else if d == 14 {
        "e"
    } else {
        "f"
    };
    assert(r@ =~= seq![digit(d as nat)]);
    r
}

/// Appends a number in hexadecimal to a text.
pub fn append_hex(text: &mut String, n: u64)
    ensures
        final(text)@ == old(text)@ + hex(n as nat),
    decreases n,
{
    if n >= 16 {
        append_hex(text, n / 16);
    }
    text.append(digit_text((n % 16) as u8));
    assert(text@ =~= old(text)@ + hex(n as nat));
}

/// The line that describes a machine with the given program counter and
/// stack.
pub fn describe(pc: u64, stack: &Vec<u64>) -> (r: String)
    ensures
        r@ == vm_text(pc, stack@),
{
    let mut text = String::from_str("DwarfVm { pc: 0x");
    append_hex(&mut text, pc);
    text.append(", stack: [");
    let ghost head = text@;
    let mut i: usize = 0;
    while i < stack.len()
        invariant
            i <= stack@.len(),
            text@ == head + words_text(stack@.take(i as int)),
        decreases stack@.len() - i,
    {
        if i > 0 {
            text.append(", ");
        }
        append_hex(&mut text, stack[i]);
        proof {
            let now = stack@.take(i + 1);
            assert(now.drop_last() =~= stack@.take(i as int));
            assert(now.last() == stack@[i as int]);
            if i == 0 {
                assert(words_text(stack@.take(0)) =~= Seq::<char>::empty());
            }
            assert(text@ =~= head + words_text(now));
        }
        i += 1;
    }
    proof {
        assert(stack@.take(stack@.len() as int) =~= stack@);
    }
    text.append("] }");
    assert(text@ =~= vm_text(pc, stack@));
    text
}

} // verus!
