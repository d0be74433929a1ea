use vstd::prelude::*;

verus! {

/// The register values of one SBI call: `a0`..`a5`, the function id in `a6`
/// and the extension id in `a7`.
#[derive(PartialEq, Eq, Structural, Clone, Copy, Debug)]
pub struct SbiCall {
    pub arg0: isize,
    pub arg1: isize,
    pub arg2: isize,
    pub arg3: isize,
    pub arg4: isize,
    pub arg5: isize,
    pub fid: isize,
    pub eid: isize,
}

/// Extension id of the legacy SBI "Console Putchar" call.
pub const SBI_CONSOLE_PUTCHAR: isize = 1;

/// The SBI call that writes `ch` to the debug console.
pub open spec fn console_putchar_call(ch: char) -> SbiCall {
    SbiCall {
        arg0: ch as isize,
        arg1: 0,
        arg2: 0,
        arg3: 0,
        arg4: 0,
        arg5: 0,
        fid: 0,
        eid: SBI_CONSOLE_PUTCHAR,
    }
}

/// Builds the SBI call that writes `ch` to the debug console: the character's
/// code point in `a0`, function 0 of extension 1, every other argument 0.
pub fn putchar(ch: char) -> (call: SbiCall)
    ensures
        call == console_putchar_call(ch),
        call.arg0 == ch as u32,
        call.arg1 == 0 && call.arg2 == 0 && call.arg3 == 0 && call.arg4 == 0 && call.arg5 == 0,
        call.fid == 0,
        call.eid == 1,
{
    proof {
        law_console_putchar_call(ch);
    }
    SbiCall {
        arg0: ch as u32 as isize,
        arg1: 0,
        arg2: 0,
        arg3: 0,
        arg4: 0,
        arg5: 0,
        fid: 0,
        eid: SBI_CONSOLE_PUTCHAR,
    }
}


/// The console call for `ch` carries the whole code point of `ch` in `a0`,
/// zero in every other argument, function 0 and extension 1.
pub proof fn law_console_putchar_call(ch: char)
    ensures
        console_putchar_call(ch).arg0 == ch as u32,
        console_putchar_call(ch).arg1 == 0,
        console_putchar_call(ch).arg2 == 0,
        console_putchar_call(ch).arg3 == 0,
        console_putchar_call(ch).arg4 == 0,
        console_putchar_call(ch).arg5 == 0,
        console_putchar_call(ch).fid == 0,
        console_putchar_call(ch).eid == 1,
{
}

/// The console calls that write the characters of `s`, in order.
pub open spec fn console_calls(s: Seq<char>) -> Seq<SbiCall> {
    s.map_values(|c: char| console_putchar_call(c))
}

/// Writing `s` makes exactly one call per character of `s`, in order: call
/// `i` carries the code point of character `i` in `a0`.
pub proof fn law_console_calls(s: Seq<char>)
    ensures
        console_calls(s).len() == s.len(),
        forall|i: int|
            0 <= i < s.len() ==> (#[trigger] console_calls(s)[i]).arg0 == s[i] as u32
                && console_calls(s)[i].arg1 == 0 && console_calls(s)[i].arg2 == 0
                && console_calls(s)[i].arg3 == 0 && console_calls(s)[i].arg4 == 0
                && console_calls(s)[i].arg5 == 0 && console_calls(s)[i].fid == 0
                && console_calls(s)[i].eid == 1,
{
    assert forall|i: int| 0 <= i < s.len() implies (#[trigger] console_calls(s)[i]).arg0
        == s[i] as u32 && console_calls(s)[i].arg1 == 0 && console_calls(s)[i].arg2 == 0
        && console_calls(s)[i].arg3 == 0 && console_calls(s)[i].arg4 == 0
        && console_calls(s)[i].arg5 == 0 && console_calls(s)[i].fid == 0
        && console_calls(s)[i].eid == 1 by {
        law_console_putchar_call(s[i]);
    }
}

/// Formatted output to the debug console.
pub struct Writer;

impl Writer {
    /// The SBI calls that write `s` to the debug console: one `putchar`
    /// call per character, in order.
    pub fn write_str(&mut self, s: &str) -> (calls: Vec<SbiCall>)
        ensures
            calls@ == console_calls(s@),
            calls@.len() == s@.len(),
            forall|i: int|
                0 <= i < s@.len() ==> (#[trigger] calls@[i]).arg0 == s@[i] as u32
                    && calls@[i].arg1 == 0 && calls@[i].arg2 == 0 && calls@[i].arg3 == 0
                    && calls@[i].arg4 == 0 && calls@[i].arg5 == 0 && calls@[i].fid == 0
                    && calls@[i].eid == 1,
    {
        let mut calls: Vec<SbiCall> = Vec::new();
        for c in it: s.chars()
            invariant
                it.seq() == s@,
                calls@ == console_calls(s@.take(it.index() as int)),
        {
            calls.push(putchar(c));
            assert(s@.take(it.index() + 1) =~= s@.take(it.index() as int).push(c));
            assert(calls@ =~= console_calls(s@.take(it.index() + 1)));
        }
        assert(s@.take(s@.len() as int) =~= s@);
        proof {
            law_console_calls(s@);
        }
        calls
    }
}

} // verus!
