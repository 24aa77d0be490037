//! The platform decisions of code generation: how the runtime's string type
//! crosses the C calling convention, the object file extension, and the text
//! that the generated program shows. The driver emits the LLVM IR.

use vstd::prelude::*;

use crate::ty::types::{encode_utf16, utf16_encode};

verus! {

/// The platform that the compiler is built for: Windows, macOS, or any other
/// (treated as Linux).
pub enum Platform {
    Windows,
    MacOs,
    Linux,
}

/// How a runtime string is returned by `alloc_string` and passed to
/// `msg_box` in the C calling convention.
pub enum StringAbi {
    /// Windows: a 16-byte aggregate returned through a hidden first
    /// parameter (`sret`), and passed to `msg_box` by pointer.
    ThroughPointer,
    /// macOS: returned and passed by value as an array of two 64-bit
    /// integers.
    ArrayOfTwoI64,
    /// Linux: returned and passed by value as a struct of two 64-bit
    /// integers.
    StructOfTwoI64,
}

/// The calling convention of runtime strings on each platform.
pub open spec fn spec_string_abi(p: Platform) -> StringAbi {
    match p {
        Platform::Windows => StringAbi::ThroughPointer,
        Platform::MacOs => StringAbi::ArrayOfTwoI64,
        Platform::Linux => StringAbi::StructOfTwoI64,
    }
}

/// The calling convention of runtime strings on `p`.
pub fn string_abi(p: Platform) -> (abi: StringAbi)
    ensures
        abi == spec_string_abi(p),
{
    match p {
        Platform::Windows => StringAbi::ThroughPointer,
        Platform::MacOs => StringAbi::ArrayOfTwoI64,
        Platform::Linux => StringAbi::StructOfTwoI64,
    }
}

/// The extension of object files: `obj` on Windows, `o` elsewhere.
pub fn object_extension(p: Platform) -> (ext: &'static str)
    ensures
        p is Windows ==> ext@ == seq!['o', 'b', 'j'],
        !(p is Windows) ==> ext@ == seq!['o'],
{
    proof {
        reveal_strlit("obj");
        reveal_strlit("o");
    }
    match p {
        Platform::Windows => "obj",
        _ => "o",
    }
}

/// The text that the generated program shows, with its terminating NUL.
pub open spec fn greeting() -> Seq<char> {
    seq!['H', 'e', 'l', 'l', 'o', ',', ' ', 'w', 'o', 'r', 'l', 'd', '!', '\0']
}

/// ASCII text encodes to one UTF-16 unit per character, of the same value.
pub proof fn lemma_utf16_encode_ascii(s: Seq<char>)
    requires
        forall|i: int| 0 <= i < s.len() ==> (#[trigger] s[i] as u32) < 128,
    ensures
        utf16_encode(s).len() == s.len(),
        forall|i: int| 0 <= i < s.len() ==> #[trigger] utf16_encode(s)[i] == s[i] as u32,
    decreases s.len(),
{
    if s.len() > 0 {
        let t = s.drop_first();
        assert forall|i: int| 0 <= i < t.len() implies (#[trigger] t[i] as u32) < 128 by {
            assert(t[i] == s[i + 1]);
        }
        lemma_utf16_encode_ascii(t);
        assert forall|i: int| 0 <= i < s.len() implies #[trigger] utf16_encode(s)[i] == s[i]
            as u32 by {
            if i > 0 {
                assert(utf16_encode(s)[i] == utf16_encode(t)[i - 1]);
            }
        }
    }
}

/// The UTF-16 code units of the greeting that the generated program shows:
/// fourteen, the last a NUL.
pub fn greeting_units() -> (units: Vec<u16>)
    ensures
        units@ == utf16_encode(greeting()),
        units@.len() == 14,
        units@[13] == 0,
        units@ == seq![72u16, 101u16, 108u16, 108u16, 111u16, 44u16, 32u16, 119u16, 111u16, 114u16, 108u16, 100u16, 33u16, 0u16],
{
    proof {
        reveal_strlit("Hello, world!\0");
    }
    let text = "Hello, world!\0";
    assert(text@ =~= greeting());
    let units = encode_utf16(text);
    proof {
        lemma_utf16_encode_ascii(greeting());
        assert(units@ =~= seq![72u16, 101u16, 108u16, 108u16, 111u16, 44u16, 32u16, 119u16, 111u16, 114u16, 108u16, 100u16, 33u16, 0u16]);
    }
    units
}

/// Runtime strings are passed through a pointer on Windows, as an array of
/// two 64-bit integers on macOS and as a struct of two 64-bit integers on
/// Linux.
pub proof fn lemma_string_abi_by_platform(p: Platform)
    ensures
        p is Windows ==> spec_string_abi(p) is ThroughPointer,
        p is MacOs ==> spec_string_abi(p) is ArrayOfTwoI64,
        p is Linux ==> spec_string_abi(p) is StructOfTwoI64,
{
}

} // verus!
