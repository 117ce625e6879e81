use vstd::prelude::*;

use crate::hir::{BuiltinIntTy, BuiltinTyKind};
use crate::util::{push_decimal, spec_decimal};
use vstd::string::StringExecFns;

verus! {

/// The widths that the integer types are defined for, in order; `u8::MAX`
/// stands for the pointer-sized type.
pub open spec fn int_widths() -> Seq<u8> {
    seq![8u8, 16u8, 32u8, 64u8, 255u8]
}

/// The widths of the floating-point types, in order.
pub open spec fn float_widths() -> Seq<u8> {
    seq![8u8, 16u8, 32u8, 64u8]
}

/// The name and kind of the integer type of `width` bits (the pointer-sized
/// one for `u8::MAX`), signed or not: `i32`, `usize`, ...
pub open spec fn int_builtin(signed: bool, width: u8) -> (Seq<char>, BuiltinTyKind) {
    let prefix = if signed {
        "i"@
    } else {
        "u"@
    };
    if width == u8::MAX {
        (prefix + "size"@, BuiltinTyKind::Int(BuiltinIntTy::Size(signed)))
    } else {
        (prefix + spec_decimal(width as nat), BuiltinTyKind::Int(BuiltinIntTy::Fixed(width, signed)))
    }
}

/// The name and kind of the floating-point type of `width` bits: `f32`, ...
pub open spec fn float_builtin(width: u8) -> (Seq<char>, BuiltinTyKind) {
    ("f"@ + spec_decimal(width as nat), BuiltinTyKind::Float(width))
}

/// The types built into the language, with their names, in the order they
/// are defined: the signed integers, the unsigned ones, the floating-point
/// types, `bool`, `char`, `str`, and `_`, the type to be inferred.
pub open spec fn spec_builtin_tys() -> Seq<(Seq<char>, BuiltinTyKind)> {
    int_widths().map_values(|w: u8| int_builtin(true, w)) + int_widths().map_values(
        |w: u8| int_builtin(false, w),
    ) + float_widths().map_values(|w: u8| float_builtin(w)) + seq![
        ("bool"@, BuiltinTyKind::Bool),
        ("char"@, BuiltinTyKind::Char),
        ("str"@, BuiltinTyKind::String),
        ("_"@, BuiltinTyKind::Infer),
    ]
}

/// The names, as text, and kinds of `v`.
pub open spec fn named_view(v: Seq<(String, BuiltinTyKind)>) -> Seq<(Seq<char>, BuiltinTyKind)> {
    v.map_values(|p: (String, BuiltinTyKind)| (p.0@, p.1))
}

/// The text `s`, as a string.
fn owned(s: &str) -> (res: String)
    ensures
        res@ == s@,
{
    let mut out = String::new();
    out.append(s);
    out
}

/// Appends the integer types of the widths in order, signed or not.
fn push_int_tys(out: &mut Vec<(String, BuiltinTyKind)>, signed: bool)
    ensures
        named_view(final(out)@) == named_view(old(out)@) + int_widths().map_values(
            |w: u8| int_builtin(signed, w),
        ),
{
    let widths: [u8; 5] = [8, 16, 32, 64, u8::MAX];
    assert(widths@ =~= int_widths());
    let mut i: usize = 0;
    while i < 5
        invariant
            i <= 5,
            widths@ == int_widths(),
            named_view(out@) == named_view(old(out)@) + int_widths().subrange(0, i as int).map_values(
                |w: u8| int_builtin(signed, w),
            ),
        decreases 5 - i,
    {
        let width = widths[i];
        let mut name = if signed {
            owned("i")
        } else {
            owned("u")
        };
        let kind = if width == u8::MAX {
            name.append("size");
            BuiltinTyKind::Int(BuiltinIntTy::Size(signed))
        } else {
            push_decimal(&mut name, width as u64);
            BuiltinTyKind::Int(BuiltinIntTy::Fixed(width, signed))
        };
        let ghost before = out@;
        out.push((name, kind));
        proof {
            assert(named_view(out@) =~= named_view(before).push((name@, kind)));
            assert(int_widths().subrange(0, i + 1).map_values(|w: u8| int_builtin(signed, w))
                =~= int_widths().subrange(0, i as int).map_values(|w: u8| int_builtin(signed, w)).push(
                int_builtin(signed, width),
            ));
        }
        i = i + 1;
    }
    assert(int_widths().subrange(0, 5) =~= int_widths());
}

/// Appends the floating-point types of the widths in order.
fn push_float_tys(out: &mut Vec<(String, BuiltinTyKind)>)
    ensures
        named_view(final(out)@) == named_view(old(out)@) + float_widths().map_values(
            |w: u8| float_builtin(w),
        ),
{
    let widths: [u8; 4] = [8, 16, 32, 64];
    assert(widths@ =~= float_widths());
    let mut i: usize = 0;
    while i < 4
        invariant
            i <= 4,
            widths@ == float_widths(),
            named_view(out@) == named_view(old(out)@) + float_widths().subrange(0, i as int).map_values(
                |w: u8| float_builtin(w),
            ),
        decreases 4 - i,
    {
        let width = widths[i];
        let mut name = owned("f");
        push_decimal(&mut name, width as u64);
        let ghost before = out@;
        out.push((name, BuiltinTyKind::Float(width)));
        proof {
            assert(named_view(out@) =~= named_view(before).push((name@, BuiltinTyKind::Float(width))));
            assert(float_widths().subrange(0, i + 1).map_values(|w: u8| float_builtin(w))
                =~= float_widths().subrange(0, i as int).map_values(|w: u8| float_builtin(w)).push(
                float_builtin(width),
            ));
        }
        i = i + 1;
    }
    assert(float_widths().subrange(0, 4) =~= float_widths());
}

/// The types built into the language, with their names, in the order they
/// are defined: see [`spec_builtin_tys`].
pub fn builtin_tys() -> (res: Vec<(String, BuiltinTyKind)>)
    ensures
        named_view(res@) == spec_builtin_tys(),
{
    let mut out: Vec<(String, BuiltinTyKind)> = Vec::new();
    assert(named_view(out@) =~= Seq::empty());
    push_int_tys(&mut out, true);
    push_int_tys(&mut out, false);
    push_float_tys(&mut out);
    let ghost before = out@;
    out.push((owned("bool"), BuiltinTyKind::Bool));
    out.push((owned("char"), BuiltinTyKind::Char));
    out.push((owned("str"), BuiltinTyKind::String));
    out.push((owned("_"), BuiltinTyKind::Infer));
    proof {
        assert(named_view(out@) =~= named_view(before) + seq![
            ("bool"@, BuiltinTyKind::Bool),
            ("char"@, BuiltinTyKind::Char),
            ("str"@, BuiltinTyKind::String),
            ("_"@, BuiltinTyKind::Infer),
        ]);
        assert(named_view(out@) =~= spec_builtin_tys());
    }
    out
}

} // verus!
