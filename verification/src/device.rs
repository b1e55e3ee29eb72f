//! Where a graph runs: the device that a configuration names, and what is
//! tried to load a graph there.

use crate::text;
use vstd::prelude::*;

verus! {

/// Value of a decimal digit.
pub open spec fn digit_value(c: char) -> Option<int> {
    if '0' <= c <= '9' {
        Some(c as int - '0' as int)
    } else {
        None
    }
}

/// The number that a run of decimal digits stands for; `None` for anything
/// else, and for nothing at all.
pub open spec fn digits_value(digits: Seq<char>) -> Option<int>
    decreases digits.len(),
{
    if digits.len() == 0 {
        None
    } else {
        match digit_value(digits.last()) {
            None => None,
            Some(low) => if digits.len() == 1 {
                Some(low)
            } else {
                match digits_value(digits.drop_last()) {
                    None => None,
                    Some(high) => Some(high * 10 + low),
                }
            },
        }
    }
}

/// The number that a numeral stands for: digits, with or without a sign.
pub open spec fn signed_value(numeral: Seq<char>) -> Option<int> {
    if numeral.len() == 0 {
        None
    } else if numeral[0] == '-' {
        match digits_value(numeral.skip(1)) {
            None => None,
            Some(value) => Some(-value),
        }
    } else if numeral[0] == '+' {
        digits_value(numeral.skip(1))
    } else {
        digits_value(numeral)
    }
}

/// The number that a numeral stands for, where it has 32 bits.
pub open spec fn i32_value(numeral: Seq<char>) -> Option<i32> {
    match signed_value(numeral) {
        None => None,
        Some(value) => if i32::MIN <= value <= i32::MAX {
            Some(value as i32)
        } else {
            None
        },
    }
}

proof fn digits_prefix(digits: Seq<char>, at: int)
    requires
        0 <= at < digits.len(),
    ensures
        digit_value(digits[at]) is None ==> digits_value(digits) is None,
    decreases digits.len(),
{
    if at < digits.len() - 1 {
        assert(digits.drop_last()[at] == digits[at]);
        digits_prefix(digits.drop_last(), at);
    }
}

proof fn digits_grow(digits: Seq<char>, upto: int)
    requires
        0 < upto <= digits.len(),
        digits_value(digits.take(upto)) is Some,
        digits_value(digits.take(upto))->0 > 0x1_0000_0000,
    ensures
        digits_value(digits) matches Some(value) ==> value > 0x1_0000_0000,
    decreases digits.len() - upto,
{
    if upto == digits.len() {
        assert(digits.take(upto) =~= digits);
    } else {
        let longer = digits.take(upto + 1);
        assert(longer.drop_last() =~= digits.take(upto));
        if digit_value(digits[upto]) is None {
            digits_prefix(digits, upto);
        } else {
            digits_grow(digits, upto + 1);
        }
    }
}

/// Reads the digits from place `from` on, as far as the number stays in
/// bounds that hold every number of 32 bits.
fn read_digits(chars: &Vec<char>, from: usize) -> (value: Option<i64>)
    requires
        from <= chars@.len(),
    ensures
        match value {
            Some(number) => digits_value(chars@.skip(from as int)) == Some(number as int),
            None => digits_value(chars@.skip(from as int)) matches Some(number) ==> number
                > 0x1_0000_0000,
        },
        value matches Some(number) ==> 0 <= number <= 0x1_0000_0000,
{
    let ghost digits = chars@.skip(from as int);
    if from == chars.len() {
        return None;
    }
    let mut number: i64 = 0;
    for i in from..chars.len()
        invariant
            from < chars@.len(),
            digits == chars@.skip(from as int),
            0 <= number <= 0x1_0000_0000,
            i == from ==> number == 0,
            i > from ==> digits_value(digits.take(i - from)) == Some(number as int),
    {
        let c = chars[i];
        assert(c == digits[i - from]);
        if !('0' <= c && c <= '9') {
            proof {
                digits_prefix(digits, i - from);
            }
            return None;
        }
        let low: i64 = (c as u32 - '0' as u32) as i64;
        let next: i64 = number * 10 + low;
        proof {
            let longer = digits.take(i + 1 - from);
            assert(longer.drop_last() =~= digits.take(i - from));
            assert(longer.last() == c);
            assert(digits_value(longer) == Some(next as int));
        }
        if next > 0x1_0000_0000 {
            proof {
                digits_grow(digits, i + 1 - from);
            }
            return None;
        }
        number = next;
    }
    assert(digits.take(chars@.len() - from) =~= digits);
    Some(number)
}

/// Reads a whole number of 32 bits, with or without a sign.
pub fn parse_i32(numeral: &str) -> (value: Option<i32>)
    ensures
        value == i32_value(numeral@),
{
    let chars = text::chars_of(numeral);
    if chars.len() == 0 {
        return None;
    }
    let negative: bool = chars[0] == '-';
    let from: usize = if negative || chars[0] == '+' {
        1
    } else {
        0
    };
    assert(chars@.skip(0) =~= chars@);
    match read_digits(&chars, from) {
        Some(number) => {
            let signed: i64 = if negative {
                -number
            } else {
                number
            };
            if i32::MIN as i64 <= signed && signed <= i32::MAX as i64 {
                Some(signed as i32)
            } else {
                None
            }
        },
        None => None,
    }
}

/// Where a graph runs.
#[derive(Debug, Clone, Copy, PartialEq, Eq, Structural)]
pub enum Device {
    Cpu,
    Cuda { device_id: i32 },
}

/// The device that a name stands for: anything that begins with `cuda` is a
/// GPU, the one that follows `cuda:` or else the first; the rest is the CPU.
pub open spec fn device_of(name: Seq<char>) -> Device {
    if text::has_prefix(name, "cuda"@) {
        Device::Cuda {
            device_id: if text::has_prefix(name, "cuda:"@) {
                match i32_value(name.skip("cuda:"@.len() as int)) {
                    Some(number) => number,
                    None => 0,
                }
            } else {
                0
            },
        }
    } else {
        Device::Cpu
    }
}

/// The device that a name stands for.
pub fn parse_device(name: &str) -> (device: Device)
    ensures
        device == device_of(name@),
{
    if !text::begins_with(name, "cuda") {
        return Device::Cpu;
    }
    let device_id: i32 = match text::after_prefix(name, "cuda:") {
        Some(number) => match parse_i32(number) {
            Some(id) => id,
            None => 0,
        },
        None => 0,
    };
    Device::Cuda { device_id }
}

/// What comes of trying to load a graph.
#[derive(Debug, Clone, Copy, PartialEq, Eq, Structural)]
pub enum LoadOutcome {
    /// The session is there.
    Loaded,
    /// The session could not be set up at all.
    SetupFailed,
    /// The session was set up, but the graph did not load into it.
    GraphFailed,
}

/// What is done next to load a graph.
#[derive(Debug, Clone, Copy, PartialEq, Eq, Structural)]
pub enum LoadStep {
    /// Try this device; on a GPU the CPU stands by for what it cannot run.
    Try(Device),
    /// Use the session.
    Use,
    /// Give up.
    Fail,
}

/// What is tried first.
pub fn first_load_step(name: &str) -> (step: LoadStep)
    ensures
        step == LoadStep::Try(device_of(name@)),
{
    LoadStep::Try(parse_device(name))
}

/// Whether `step` follows on the outcome of a try.
pub open spec fn follows(tried: Device, outcome: LoadOutcome, step: LoadStep) -> bool {
    match outcome {
        LoadOutcome::Loaded => step == LoadStep::Use,
        LoadOutcome::SetupFailed => step == LoadStep::Fail,
        LoadOutcome::GraphFailed => step == if tried == Device::Cpu {
            LoadStep::Fail
        } else {
            LoadStep::Try(Device::Cpu)
        },
    }
}

/// What follows on the outcome of a try: a graph that does not load on a GPU
/// is tried on the CPU, every other failure is final.
pub fn next_load_step(tried: Device, outcome: LoadOutcome) -> (step: LoadStep)
    ensures
        follows(tried, outcome, step),
        outcome == LoadOutcome::Loaded ==> step == LoadStep::Use,
        outcome == LoadOutcome::SetupFailed ==> step == LoadStep::Fail,
        outcome == LoadOutcome::GraphFailed ==> step == if tried == Device::Cpu {
            LoadStep::Fail
        } else {
            LoadStep::Try(Device::Cpu)
        },
{
    match outcome {
        LoadOutcome::Loaded => LoadStep::Use,
        LoadOutcome::SetupFailed => LoadStep::Fail,
        LoadOutcome::GraphFailed => match tried {
            Device::Cpu => LoadStep::Fail,
            Device::Cuda { device_id: _ } => LoadStep::Try(Device::Cpu),
        },
    }
}

/// A name without a device number means the first GPU, as does one whose
/// number cannot be read.
pub proof fn unreadable_number_means_first_gpu(rest: Seq<char>)
    requires
        i32_value(rest) is None,
    ensures
        device_of("cuda:"@ + rest) == (Device::Cuda { device_id: 0 }),
        device_of("cuda"@) == (Device::Cuda { device_id: 0 }),
{
    reveal_strlit("cuda");
    reveal_strlit("cuda:");
    let name = "cuda:"@ + rest;
    assert(name.take(4) =~= "cuda"@);
    assert(name.take(5) =~= "cuda:"@);
    assert(name.skip(5) =~= rest);
    assert("cuda"@.take(4) =~= "cuda"@);
}

proof fn numeral_reads_back(n: nat)
    ensures
        digits_value(text::numeral(n)) == Some(n as int),
    decreases n,
{
    text::numeral_stands_for_its_number(n);
    if n >= 10 {
        numeral_reads_back(n / 10);
        text::numeral_stands_for_its_number(n / 10);
        assert(text::numeral(n).drop_last() =~= text::numeral(n / 10));
        assert(text::numeral(n).last() == text::digit(n % 10));
        assert(text::horner(text::numeral(n)) == n);
    } else {
        reveal_with_fuel(text::horner, 2);
        assert(text::numeral(n).drop_last() =~= Seq::empty());
    }
}

/// A GPU is named by its number: `cuda:` and the numeral of a number of 31 bits
/// is the GPU of that number, with a plus sign or without, and with a minus sign
/// the one of the number below zero.
pub proof fn gpu_is_named_by_its_number(n: nat)
    requires
        n <= 0x7fff_ffff,
    ensures
        device_of("cuda:"@ + text::numeral(n)) == (Device::Cuda { device_id: n as i32 }),
        device_of("cuda:"@ + seq!['+'] + text::numeral(n)) == (Device::Cuda {
            device_id: n as i32,
        }),
        device_of("cuda:"@ + seq!['-'] + text::numeral(n)) == (Device::Cuda {
            device_id: (-n) as i32,
        }),
{
    reveal_strlit("cuda");
    reveal_strlit("cuda:");
    numeral_reads_back(n);
    text::numeral_stands_for_its_number(n);
    let digits = text::numeral(n);
    assert(48 <= digits[0] as int <= 57);
    let plain = "cuda:"@ + digits;
    assert(plain.take(4) =~= "cuda"@ && plain.take(5) =~= "cuda:"@ && plain.skip(5) =~= digits);
    let up = seq!['+'] + digits;
    let plus = "cuda:"@ + seq!['+'] + digits;
    assert(plus.take(4) =~= "cuda"@ && plus.take(5) =~= "cuda:"@ && plus.skip(5) =~= up);
    assert(up.skip(1) =~= digits);
    let down = seq!['-'] + digits;
    let minus = "cuda:"@ + seq!['-'] + digits;
    assert(minus.take(4) =~= "cuda"@ && minus.take(5) =~= "cuda:"@ && minus.skip(5) =~= down);
    assert(down.skip(1) =~= digits);
}

/// A number that takes more than 31 bits, or a text that is no number, names the
/// first GPU, as does anything else that begins with `cuda`; whatever does not
/// begin so is the CPU.
pub proof fn other_names_are_the_first_gpu_or_the_cpu(n: nat, name: Seq<char>, tail: Seq<char>)
    ensures
        n > 0x7fff_ffff ==> device_of("cuda:"@ + text::numeral(n)) == (Device::Cuda {
            device_id: 0,
        }),
        tail.len() == 0 || tail[0] != ':' ==> device_of("cuda"@ + tail) == (Device::Cuda {
            device_id: 0,
        }),
        name.len() < 4 || name[0] != 'c' || name[1] != 'u' || name[2] != 'd' || name[3] != 'a'
            ==> device_of(name) == Device::Cpu,
        device_of(name) == Device::Cpu ==> name.len() < 4 || name[0] != 'c' || name[1] != 'u'
            || name[2] != 'd' || name[3] != 'a',
{
    reveal_strlit("cuda");
    reveal_strlit("cuda:");
    numeral_reads_back(n);
    text::numeral_stands_for_its_number(n);
    let digits = text::numeral(n);
    assert(48 <= digits[0] as int <= 57);
    let plain = "cuda:"@ + digits;
    assert(plain.take(4) =~= "cuda"@ && plain.take(5) =~= "cuda:"@ && plain.skip(5) =~= digits);
    let longer = "cuda"@ + tail;
    assert(longer.take(4) =~= "cuda"@);
    if tail.len() == 0 || tail[0] != ':' {
        if text::has_prefix(longer, "cuda:"@) {
            assert(longer.take(5)[4] == "cuda:"@[4]);
        }
    }
    if text::has_prefix(name, "cuda"@) {
        assert(name.take(4)[0] == 'c' && name.take(4)[1] == 'u' && name.take(4)[2] == 'd'
            && name.take(4)[3] == 'a');
    } else if name.len() >= 4 && name[0] == 'c' && name[1] == 'u' && name[2] == 'd' && name[3]
        == 'a' {
        assert(name.take(4) =~= "cuda"@);
    }
}

/// A graph is tried twice at most: what did not load on a GPU is tried on the
/// CPU, nothing follows on a failure there, and a session is used exactly when
/// the graph was loaded into it.
pub proof fn graph_is_tried_on_the_cpu_last(
    device_id: i32,
    tried: Device,
    outcome: LoadOutcome,
    step: LoadStep,
)
    requires
        follows(tried, outcome, step),
    ensures
        step == LoadStep::Use <==> outcome == LoadOutcome::Loaded,
        tried == Device::Cpu ==> !(step is Try),
        tried == (Device::Cuda { device_id }) && outcome == LoadOutcome::GraphFailed ==> step
            == LoadStep::Try(Device::Cpu),
        outcome == LoadOutcome::SetupFailed ==> step == LoadStep::Fail,
        step is Try ==> tried is Cuda && outcome == LoadOutcome::GraphFailed,
{
}

} // verus!
