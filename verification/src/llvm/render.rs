//! The serializer: a native module out, LLVM-style textual IR back.
//! The text is defined once by the specification functions here; the
//! executable renderer is proved to produce exactly that text.
//!
//! Temporaries render as `%tN`, parameters as `%pN` and globals as
//! `@gN`, where `N` is the item's index: two distinct globals render
//! under two distinct labels. String constants render as fully
//! hex-escaped, null-terminated byte arrays of their UTF-8 encoding.

use vstd::prelude::*;
use vstd::string::StringExecFns;

use crate::text::push_char;
use super::ir::{
    GlobalDef, GlobalDefV, GlobalInit, GlobalInitV, Inst, InstV, IrFunc, IrFuncV, IrValue,
    NativeModule, NativeModuleV, RetKind,
};

verus! {

// ---------------------------------------------------------------------------
// Numbers and bytes.
// ---------------------------------------------------------------------------
/// The decimal digits of `n`.
pub open spec fn spec_dec(n: nat) -> Seq<char>
    decreases n,
{
    if n < 10 {
        seq![((48 + n) as u8) as char]
    } else {
        spec_dec(n / 10).push(((48 + n % 10) as u8) as char)
    }
}

/// A signed 32-bit value in decimal.
pub open spec fn spec_dec_i32(n: int) -> Seq<char> {
    if n < 0 {
        seq!['-'].add(spec_dec((-n) as nat))
    } else {
        spec_dec(n as nat)
    }
}

/// The UTF-8 encoding of one character.
pub open spec fn spec_utf8_char(c: char) -> Seq<u8> {
    let u = c as u32;
    if u < 0x80 {
        seq![u as u8]
    } else if u < 0x800 {
        seq![(0xC0 + u / 64) as u8, (0x80 + u % 64) as u8]
    } else if u < 0x10000 {
        seq![(0xE0 + u / 4096) as u8, (0x80 + (u / 64) % 64) as u8, (0x80 + u % 64) as u8]
    } else {
        seq![
            (0xF0 + u / 262144) as u8,
            (0x80 + (u / 4096) % 64) as u8,
            (0x80 + (u / 64) % 64) as u8,
            (0x80 + u % 64) as u8,
        ]
    }
}

/// The UTF-8 encoding of a character sequence.
pub open spec fn spec_utf8(s: Seq<char>) -> Seq<u8>
    decreases s,
{
    if s.len() == 0 {
        Seq::empty()
    } else {
        spec_utf8(s.drop_last()).add(spec_utf8_char(s.last()))
    }
}

/// An upper-case hexadecimal digit.
pub open spec fn spec_hex_digit(d: int) -> char {
    if d < 10 {
        ((48 + d) as u8) as char
    } else {
        ((55 + d) as u8) as char
    }
}

/// Bytes as `\XY` escapes, every byte escaped.
pub open spec fn spec_esc(bs: Seq<u8>) -> Seq<char>
    decreases bs,
{
    if bs.len() == 0 {
        Seq::empty()
    } else {
        spec_esc(bs.drop_last()).add(
            seq![
                '\\',
                spec_hex_digit(bs.last() as int / 16),
                spec_hex_digit(bs.last() as int % 16),
            ],
        )
    }
}

// ---------------------------------------------------------------------------
// Values.
// ---------------------------------------------------------------------------
/// How a value is written.
pub open spec fn spec_val(v: IrValue) -> Seq<char> {
    match v {
        IrValue::ConstI32(n) => spec_dec_i32(n as int),
        IrValue::ConstI8(b) => spec_dec(b as nat),
        IrValue::Temp(t, _) => "%t"@.add(spec_dec(t as nat)),
        IrValue::Param(p, _) => "%p"@.add(spec_dec(p as nat)),
        IrValue::GlobalRef(g) => "@g"@.add(spec_dec(g as nat)),
        IrValue::NullPtr => "null"@,
    }
}

/// A value's type token.
pub open spec fn spec_val_type(v: IrValue) -> Seq<char> {
    match v {
        IrValue::ConstI32(_) => "i32"@,
        IrValue::ConstI8(_) => "i8"@,
        IrValue::Temp(_, ptr) => if ptr {
            "ptr"@
        } else {
            "i32"@
        },
        IrValue::Param(_, ptr) => if ptr {
            "ptr"@
        } else {
            "i32"@
        },
        IrValue::GlobalRef(_) => "ptr"@,
        IrValue::NullPtr => "ptr"@,
    }
}

/// A value with its type token.
pub open spec fn spec_typed_val(v: IrValue) -> Seq<char> {
    spec_val_type(v).add(" "@).add(spec_val(v))
}

/// A return kind's type token.
pub open spec fn spec_ret_type(r: RetKind) -> Seq<char> {
    match r {
        RetKind::I32 => "i32"@,
        RetKind::I8 => "i8"@,
        RetKind::Void => "void"@,
    }
}

// ---------------------------------------------------------------------------
// Instructions.
// ---------------------------------------------------------------------------
/// A comma-separated typed argument list, from position `i` on.
pub open spec fn spec_args(args: Seq<IrValue>, i: int) -> Seq<char>
    decreases args.len() - i,
{
    if i < 0 || i >= args.len() {
        Seq::empty()
    } else {
        let head = if i > 0 {
            ", "@.add(spec_typed_val(args[i]))
        } else {
            spec_typed_val(args[i])
        };
        head.add(spec_args(args, i + 1))
    }
}

/// The call-site type of a callee: its plain return type, or the whole
/// function type where it is variadic.
pub open spec fn spec_callee_type(f: IrFuncV) -> Seq<char> {
    if f.varargs {
        spec_ret_type(f.ret).add(" ("@).add(spec_sig(f.ptr_params, 0)).add(", ...)"@)
    } else {
        spec_ret_type(f.ret)
    }
}

/// A comma-separated parameter-type list, from position `i` on.
pub open spec fn spec_sig(ps: Seq<bool>, i: int) -> Seq<char>
    decreases ps.len() - i,
{
    if i < 0 || i >= ps.len() {
        Seq::empty()
    } else {
        let ty = if ps[i] {
            "ptr"@
        } else {
            "i32"@
        };
        let head = if i > 0 {
            ", "@.add(ty)
        } else {
            ty
        };
        head.add(spec_sig(ps, i + 1))
    }
}

/// A comma-separated named parameter list, from position `i` on.
pub open spec fn spec_named_params(ps: Seq<bool>, i: int) -> Seq<char>
    decreases ps.len() - i,
{
    if i < 0 || i >= ps.len() {
        Seq::empty()
    } else {
        let ty = if ps[i] {
            "ptr"@
        } else {
            "i32"@
        };
        let one = ty.add(" %p"@).add(spec_dec(i as nat));
        let head = if i > 0 {
            ", "@.add(one)
        } else {
            one
        };
        head.add(spec_named_params(ps, i + 1))
    }
}

/// How one instruction is written, as a line of its own.
pub open spec fn spec_inst(funcs: Seq<IrFuncV>, ins: InstV) -> Seq<char> {
    match ins {
        InstV::Add { dst, a, b } => "  %t"@.add(spec_dec(dst as nat)).add(" = add i32 "@).add(
            spec_val(a),
        ).add(", "@).add(spec_val(b)).add("\n"@),
        InstV::Sub { dst, a, b } => "  %t"@.add(spec_dec(dst as nat)).add(" = sub i32 "@).add(
            spec_val(a),
        ).add(", "@).add(spec_val(b)).add("\n"@),
        InstV::Mul { dst, a, b } => "  %t"@.add(spec_dec(dst as nat)).add(" = mul i32 "@).add(
            spec_val(a),
        ).add(", "@).add(spec_val(b)).add("\n"@),
        InstV::Div { dst, a, b } => "  %t"@.add(spec_dec(dst as nat)).add(" = sdiv i32 "@).add(
            spec_val(a),
        ).add(", "@).add(spec_val(b)).add("\n"@),
        InstV::CallFn { dst, callee, args } => {
            if 0 <= callee < funcs.len() {
                let f = funcs[callee as int];
                let callpart = "call "@.add(spec_callee_type(f)).add(" @"@).add(f.name).add(
                    "("@,
                ).add(spec_args(args, 0)).add(")\n"@);
                if f.ret == RetKind::Void {
                    "  "@.add(callpart)
                } else {
                    "  %t"@.add(spec_dec(dst as nat)).add(" = "@).add(callpart)
                }
            } else {
                Seq::empty()
            }
        },
        InstV::Ret { val } => match val {
            Some(v) => "  ret "@.add(spec_typed_val(v)).add("\n"@),
            None => "  ret void\n"@,
        },
        InstV::StoreGlobal { global, val } => "  store "@.add(spec_typed_val(val)).add(
            ", ptr @g"@,
        ).add(spec_dec(global as nat)).add("\n"@),
        InstV::LoadGlobal { dst, global } => "  %t"@.add(spec_dec(dst as nat)).add(
            " = load ptr, ptr @g"@,
        ).add(spec_dec(global as nat)).add("\n"@),
        InstV::Gep { dst, base, index } => "  %t"@.add(spec_dec(dst as nat)).add(
            " = getelementptr ptr, ptr "@,
        ).add(spec_val(base)).add(", "@).add(spec_typed_val(index)).add("\n"@),
        InstV::Load { dst, addr } => "  %t"@.add(spec_dec(dst as nat)).add(
            " = load ptr, ptr "@,
        ).add(spec_val(addr)).add("\n"@),
    }
}

/// A function body, from instruction `i` on.
pub open spec fn spec_body(funcs: Seq<IrFuncV>, body: Seq<InstV>, i: int) -> Seq<char>
    decreases body.len() - i,
{
    if i < 0 || i >= body.len() {
        Seq::empty()
    } else {
        spec_inst(funcs, body[i]).add(spec_body(funcs, body, i + 1))
    }
}

// ---------------------------------------------------------------------------
// Globals, functions, the module.
// ---------------------------------------------------------------------------
/// How global `gi` is written. A string constant renders as its UTF-8
/// bytes, each escaped, with a terminating null byte. An array constant
/// renders zero-initialized: only the module's in-memory form carries
/// its stored first element.
pub open spec fn spec_global(gi: int, g: GlobalDefV) -> Seq<char> {
    let head = "@g"@.add(spec_dec(gi as nat)).add(" = "@);
    match g.init {
        GlobalInitV::Text(s) => {
            let bytes = spec_utf8(s);
            head.add("private constant ["@).add(spec_dec((bytes.len() + 1) as nat)).add(
                " x i8] c\""@,
            ).add(spec_esc(bytes)).add("\\00\"\n"@)
        },
        GlobalInitV::Int32(n) => head.add("global i32 "@).add(spec_dec_i32(n as int)).add("\n"@),
        GlobalInitV::NullPtr => head.add("global ptr null\n"@),
        GlobalInitV::ArrayFirst { len, first: _, elem_ptr } => head.add("global ["@).add(
            spec_dec(len as nat),
        ).add(" x "@).add(if elem_ptr {
            "ptr"@
        } else {
            "i32"@
        }).add("] zeroinitializer\n"@),
    }
}

/// The globals, from index `i` on.
pub open spec fn spec_globals(gs: Seq<GlobalDefV>, i: int) -> Seq<char>
    decreases gs.len() - i,
{
    if i < 0 || i >= gs.len() {
        Seq::empty()
    } else {
        spec_global(i, gs[i]).add(spec_globals(gs, i + 1))
    }
}

/// How one function is written: a `declare` line, or a `define` with
/// its body.
pub open spec fn spec_func(funcs: Seq<IrFuncV>, f: IrFuncV) -> Seq<char> {
    if f.is_declaration {
        "declare "@.add(spec_ret_type(f.ret)).add(" @"@).add(f.name).add("("@).add(
            spec_sig(f.ptr_params, 0),
        ).add(if f.varargs {
            ", ...)\n"@
        } else {
            ")\n"@
        })
    } else {
        "define "@.add(spec_ret_type(f.ret)).add(" @"@).add(f.name).add("("@).add(
            spec_named_params(f.ptr_params, 0),
        ).add(") {\nentry:\n"@).add(spec_body(funcs, f.body, 0)).add("}\n"@)
    }
}

/// The functions, from index `i` on, one blank line before each.
pub open spec fn spec_funcs(funcs: Seq<IrFuncV>, i: int) -> Seq<char>
    decreases funcs.len() - i,
{
    if i < 0 || i >= funcs.len() {
        Seq::empty()
    } else {
        "\n"@.add(spec_func(funcs, funcs[i])).add(spec_funcs(funcs, i + 1))
    }
}

/// The whole module's text: its globals, then its functions.
pub open spec fn spec_module_text(m: NativeModuleV) -> Seq<char> {
    spec_globals(m.globals, 0).add(spec_funcs(m.funcs, 0))
}

// ---------------------------------------------------------------------------
// The executable renderer.
// ---------------------------------------------------------------------------
/// Decimal digits of `n`.
fn dec_u64(n: u64) -> (r: String)
    ensures
        r@ == spec_dec(n as nat),
    decreases n,
{
    if n < 10 {
        let mut s = String::new();
        push_char(&mut s, (48 + n as u8) as char);
        proof {
            assert(s@ =~= spec_dec(n as nat));
        }
        s
    } else {
        let mut s = dec_u64(n / 10);
        push_char(&mut s, (48 + (n % 10) as u8) as char);
        s
    }
}

/// A signed 32-bit value in decimal.
fn dec_i32(n: i32) -> (r: String)
    ensures
        r@ == spec_dec_i32(n as int),
{
    let m: i64 = n as i64;
    if m < 0 {
        let mut s = String::new();
        push_char(&mut s, '-');
        let d = dec_u64((-m) as u64);
        s.append(d.as_str());
        proof {
            assert(s@ =~= spec_dec_i32(n as int));
        }
        s
    } else {
        dec_u64(m as u64)
    }
}

/// The UTF-8 bytes of one character.
fn utf8_bytes(c: char) -> (r: Vec<u8>)
    ensures
        r@ == spec_utf8_char(c),
{
    let u = c as u32;
    let mut v: Vec<u8> = Vec::new();
    if u < 0x80 {
        v.push(#[verifier::truncate] (u as u8));
        proof {
            assert(v@ =~= spec_utf8_char(c));
        }
    } else if u < 0x800 {
        v.push(#[verifier::truncate] ((0xC0 + u / 64) as u8));
        v.push(#[verifier::truncate] ((0x80 + u % 64) as u8));
        proof {
            assert(v@ =~= spec_utf8_char(c));
        }
    } else if u < 0x10000 {
        v.push(#[verifier::truncate] ((0xE0 + u / 4096) as u8));
        v.push(#[verifier::truncate] ((0x80 + (u / 64) % 64) as u8));
        v.push(#[verifier::truncate] ((0x80 + u % 64) as u8));
        proof {
            assert(v@ =~= spec_utf8_char(c));
        }
    } else {
        v.push(#[verifier::truncate] ((0xF0 + u / 262144) as u8));
        v.push(#[verifier::truncate] ((0x80 + (u / 4096) % 64) as u8));
        v.push(#[verifier::truncate] ((0x80 + (u / 64) % 64) as u8));
        v.push(#[verifier::truncate] ((0x80 + u % 64) as u8));
        proof {
            assert(v@ =~= spec_utf8_char(c));
        }
    }
    v
}

/// `spec_utf8` distributes over appending one character.
proof fn lemma_utf8_push(s: Seq<char>, c: char)
    ensures
        spec_utf8(s.push(c)) == spec_utf8(s).add(spec_utf8_char(c)),
{
    assert(s.push(c).drop_last() =~= s);
    assert(s.push(c).last() == c);
}

/// `spec_esc` distributes over concatenation.
proof fn lemma_esc_add(a: Seq<u8>, b: Seq<u8>)
    ensures
        spec_esc(a.add(b)) == spec_esc(a).add(spec_esc(b)),
    decreases b,
{
    if b.len() == 0 {
        assert(a.add(b) =~= a);
        assert(spec_esc(a).add(spec_esc(b)) =~= spec_esc(a));
    } else {
        lemma_esc_add(a, b.drop_last());
        assert(a.add(b).drop_last() =~= a.add(b.drop_last()));
        assert(a.add(b).last() == b.last());
        assert(spec_esc(a).add(spec_esc(b.drop_last())).add(
            seq![
                '\\',
                spec_hex_digit(b.last() as int / 16),
                spec_hex_digit(b.last() as int % 16),
            ],
        ) =~= spec_esc(a).add(spec_esc(b)));
    }
}

/// One hexadecimal digit character.
fn hex_digit(d: u8) -> (r: char)
    requires
        d < 16,
    ensures
        r == spec_hex_digit(d as int),
{
    if d < 10 {
        (48 + d) as char
    } else {
        (55 + d) as char
    }
}

/// The fully escaped UTF-8 encoding of a string.
fn esc_str(s: &str) -> (r: String)
    ensures
        r@ == spec_esc(spec_utf8(s@)),
{
    let n = s.unicode_len();
    let mut out = String::new();
    let mut i: usize = 0;
    proof {
        assert(s@.subrange(0, 0) =~= Seq::<char>::empty());
        assert(spec_utf8(Seq::<char>::empty()) =~= Seq::<u8>::empty());
        assert(spec_esc(Seq::<u8>::empty()) =~= Seq::<char>::empty());
        assert(out@ =~= Seq::<char>::empty());
    }
    while i < n
        invariant
            i <= n,
            n == s@.len(),
            out@ == spec_esc(spec_utf8(s@.subrange(0, i as int))),
        decreases n - i,
    {
        let c = s.get_char(i);
        let bytes = utf8_bytes(c);
        let ghost prefix = s@.subrange(0, i as int);
        let mut k: usize = 0;
        proof {
            assert(bytes@.subrange(0, 0) =~= Seq::<u8>::empty());
            assert(spec_esc(Seq::<u8>::empty()) =~= Seq::<char>::empty());
            assert(out@.add(Seq::<char>::empty()) =~= out@);
        }
        #[verifier::loop_isolation(false)]
        while k < bytes.len()
            invariant
                k <= bytes@.len(),
                out@ == spec_esc(spec_utf8(prefix)).add(
                    spec_esc(bytes@.subrange(0, k as int)),
                ),
            decreases bytes@.len() - k,
        {
            let b = bytes[k];
            push_char(&mut out, '\\');
            push_char(&mut out, hex_digit(b / 16));
            push_char(&mut out, hex_digit(b % 16));
            proof {
                let sub1 = bytes@.subrange(0, k as int + 1);
                assert(sub1.drop_last() =~= bytes@.subrange(0, k as int));
                assert(sub1.last() == b);
                assert(out@ =~= spec_esc(spec_utf8(prefix)).add(spec_esc(sub1)));
            }
            k = k + 1;
        }
        proof {
            assert(bytes@.subrange(0, bytes@.len() as int) =~= bytes@);
            lemma_utf8_push(prefix, c);
            assert(prefix.push(c) =~= s@.subrange(0, i as int + 1));
            lemma_esc_add(spec_utf8(prefix), bytes@);
        }
        i = i + 1;
    }
    proof {
        assert(s@.subrange(0, n as int) =~= s@);
    }
    out
}

/// How a value is written.
fn val_text(v: &IrValue) -> (r: String)
    ensures
        r@ == spec_val(*v),
{
    match v {
        IrValue::ConstI32(n) => dec_i32(*n),
        IrValue::ConstI8(b) => dec_u64(*b as u64),
        IrValue::Temp(t, _) => {
            let mut s = String::from_str("%t");
            let d = dec_u64(*t as u64);
            s.append(d.as_str());
            proof {
                assert(s@ =~= spec_val(*v));
            }
            s
        },
        IrValue::Param(p, _) => {
            let mut s = String::from_str("%p");
            let d = dec_u64(*p as u64);
            s.append(d.as_str());
            proof {
                assert(s@ =~= spec_val(*v));
            }
            s
        },
        IrValue::GlobalRef(g) => {
            let mut s = String::from_str("@g");
            let d = dec_u64(*g as u64);
            s.append(d.as_str());
            proof {
                assert(s@ =~= spec_val(*v));
            }
            s
        },
        IrValue::NullPtr => String::from_str("null"),
    }
}

/// A value's type token.
fn val_type(v: &IrValue) -> (r: String)
    ensures
        r@ == spec_val_type(*v),
{
    match v {
        IrValue::ConstI32(_) => String::from_str("i32"),
        IrValue::ConstI8(_) => String::from_str("i8"),
        IrValue::Temp(_, ptr) => if *ptr {
            String::from_str("ptr")
        } else {
            String::from_str("i32")
        },
        IrValue::Param(_, ptr) => if *ptr {
            String::from_str("ptr")
        } else {
            String::from_str("i32")
        },
        IrValue::GlobalRef(_) => String::from_str("ptr"),
        IrValue::NullPtr => String::from_str("ptr"),
    }
}

/// A value with its type token.
fn typed_val(v: &IrValue) -> (r: String)
    ensures
        r@ == spec_typed_val(*v),
{
    let mut s = val_type(v);
    s.append(" ");
    let d = val_text(v);
    s.append(d.as_str());
    s
}

/// A return kind's type token.
fn ret_type(r0: &RetKind) -> (r: String)
    ensures
        r@ == spec_ret_type(*r0),
{
    match r0 {
        RetKind::I32 => String::from_str("i32"),
        RetKind::I8 => String::from_str("i8"),
        RetKind::Void => String::from_str("void"),
    }
}

/// A comma-separated typed argument list.
fn args_text(args: &Vec<IrValue>) -> (r: String)
    ensures
        r@ == spec_args(args@, 0),
{
    let mut out = String::new();
    let mut i: usize = 0;
    while i < args.len()
        invariant
            i <= args@.len(),
            spec_args(args@, 0) == out@.add(spec_args(args@, i as int)),
        decreases args@.len() - i,
    {
        if i > 0 {
            out.append(", ");
        }
        let t = typed_val(&args[i]);
        out.append(t.as_str());
        i = i + 1;
    }
    proof {
        assert(out@.add(Seq::<char>::empty()) =~= out@);
    }
    out
}

/// A comma-separated parameter-type list.
fn sig_text(ps: &Vec<bool>) -> (r: String)
    ensures
        r@ == spec_sig(ps@, 0),
{
    let mut out = String::new();
    let mut i: usize = 0;
    while i < ps.len()
        invariant
            i <= ps@.len(),
            spec_sig(ps@, 0) == out@.add(spec_sig(ps@, i as int)),
        decreases ps@.len() - i,
    {
        if i > 0 {
            out.append(", ");
        }
        if ps[i] {
            out.append("ptr");
        } else {
            out.append("i32");
        }
        i = i + 1;
    }
    proof {
        assert(out@.add(Seq::<char>::empty()) =~= out@);
    }
    out
}

/// A comma-separated named parameter list.
fn named_params_text(ps: &Vec<bool>) -> (r: String)
    ensures
        r@ == spec_named_params(ps@, 0),
{
    let mut out = String::new();
    let mut i: usize = 0;
    while i < ps.len()
        invariant
            i <= ps@.len(),
            spec_named_params(ps@, 0) == out@.add(spec_named_params(ps@, i as int)),
        decreases ps@.len() - i,
    {
        if i > 0 {
            out.append(", ");
        }
        if ps[i] {
            out.append("ptr");
        } else {
            out.append("i32");
        }
        out.append(" %p");
        let d = dec_u64(i as u64);
        out.append(d.as_str());
        i = i + 1;
    }
    proof {
        assert(out@.add(Seq::<char>::empty()) =~= out@);
    }
    out
}

/// How one instruction is written.
#[verifier::rlimit(30)]
fn inst_text(m: &NativeModule, ins: &Inst) -> (r: String)
    ensures
        r@ == spec_inst(m@.funcs, ins@),
{
    match ins {
        Inst::Add { dst, a, b } => arith_text(*dst, "  %t", " = add i32 ", a, b),
        Inst::Sub { dst, a, b } => arith_text(*dst, "  %t", " = sub i32 ", a, b),
        Inst::Mul { dst, a, b } => arith_text(*dst, "  %t", " = mul i32 ", a, b),
        Inst::Div { dst, a, b } => arith_text(*dst, "  %t", " = sdiv i32 ", a, b),
        Inst::CallFn { dst, callee, args } => {
            if *callee < m.funcs.len() {
                let f = &m.funcs[*callee];
                let mut call = String::from_str("call ");
                if f.varargs {
                    let rt = ret_type(&f.ret);
                    call.append(rt.as_str());
                    call.append(" (");
                    let sg = sig_text(&f.ptr_params);
                    call.append(sg.as_str());
                    call.append(", ...)");
                } else {
                    let rt = ret_type(&f.ret);
                    call.append(rt.as_str());
                }
                call.append(" @");
                call.append(f.name.as_str());
                call.append("(");
                let at = args_text(args);
                call.append(at.as_str());
                call.append(")\n");
                let is_void = matches!(f.ret, RetKind::Void);
                let mut out = String::new();
                if is_void {
                    out.append("  ");
                } else {
                    out.append("  %t");
                    let d = dec_u64(*dst as u64);
                    out.append(d.as_str());
                    out.append(" = ");
                }
                out.append(call.as_str());
                out
            } else {
                String::new()
            }
        },
        Inst::Ret { val } => match val {
            Some(v) => {
                let mut out = String::from_str("  ret ");
                let t = typed_val(v);
                out.append(t.as_str());
                out.append("\n");
                out
            },
            None => String::from_str("  ret void\n"),
        },
        Inst::StoreGlobal { global, val } => {
            let mut out = String::from_str("  store ");
            let t = typed_val(val);
            out.append(t.as_str());
            out.append(", ptr @g");
            let d = dec_u64(*global as u64);
            out.append(d.as_str());
            out.append("\n");
            out
        },
        Inst::LoadGlobal { dst, global } => {
            let mut out = String::from_str("  %t");
            let d = dec_u64(*dst as u64);
            out.append(d.as_str());
            out.append(" = load ptr, ptr @g");
            let g = dec_u64(*global as u64);
            out.append(g.as_str());
            out.append("\n");
            out
        },
        Inst::Gep { dst, base, index } => {
            let mut out = String::from_str("  %t");
            let d = dec_u64(*dst as u64);
            out.append(d.as_str());
            out.append(" = getelementptr ptr, ptr ");
            let b = val_text(base);
            out.append(b.as_str());
            out.append(", ");
            let ix = typed_val(index);
            out.append(ix.as_str());
            out.append("\n");
            out
        },
        Inst::Load { dst, addr } => {
            let mut out = String::from_str("  %t");
            let d = dec_u64(*dst as u64);
            out.append(d.as_str());
            out.append(" = load ptr, ptr ");
            let a = val_text(addr);
            out.append(a.as_str());
            out.append("\n");
            out
        },
    }
}

/// An arithmetic instruction line.
fn arith_text(dst: usize, head: &str, mid: &str, a: &IrValue, b: &IrValue) -> (r: String)
    ensures
        r@ == head@.add(spec_dec(dst as nat)).add(mid@).add(spec_val(*a)).add(", "@).add(
            spec_val(*b),
        ).add("\n"@),
{
    let mut out = String::from_str(head);
    let d = dec_u64(dst as u64);
    out.append(d.as_str());
    out.append(mid);
    let at = val_text(a);
    out.append(at.as_str());
    out.append(", ");
    let bt = val_text(b);
    out.append(bt.as_str());
    out.append("\n");
    out
}

/// How global `gi` is written.
fn global_text(gi: usize, g: &GlobalDef) -> (r: String)
    ensures
        r@ == spec_global(gi as int, g@),
{
    let mut out = String::from_str("@g");
    let d = dec_u64(gi as u64);
    out.append(d.as_str());
    out.append(" = ");
    match &g.init {
        GlobalInit::Text(s) => {
            out.append("private constant [");
            let e = esc_str(s.as_str());
            proof {
                lemma_esc_len(spec_utf8(s@));
            }
            let bytes = e.as_str().unicode_len() / 3;
            let bl = dec_u64((bytes as u64) + 1);
            out.append(bl.as_str());
            out.append(" x i8] c\"");
            out.append(e.as_str());
            out.append("\\00\"\n");
        },
        GlobalInit::Int32(n) => {
            out.append("global i32 ");
            let t = dec_i32(*n);
            out.append(t.as_str());
            out.append("\n");
        },
        GlobalInit::NullPtr => {
            out.append("global ptr null\n");
        },
        GlobalInit::ArrayFirst { len, first: _, elem_ptr } => {
            out.append("global [");
            let t = dec_u64(*len as u64);
            out.append(t.as_str());
            out.append(" x ");
            if *elem_ptr {
                out.append("ptr");
            } else {
                out.append("i32");
            }
            out.append("] zeroinitializer\n");
        },
    }
    out
}

/// Escaping writes three characters per byte.
proof fn lemma_esc_len(bs: Seq<u8>)
    ensures
        spec_esc(bs).len() == 3 * bs.len(),
    decreases bs,
{
    if bs.len() > 0 {
        lemma_esc_len(bs.drop_last());
    }
}

/// How one function is written.
fn func_text(m: &NativeModule, f: &IrFunc) -> (r: String)
    ensures
        r@ == spec_func(m@.funcs, f@),
{
    if f.is_declaration {
        let mut out = String::from_str("declare ");
        let rt = ret_type(&f.ret);
        out.append(rt.as_str());
        out.append(" @");
        out.append(f.name.as_str());
        out.append("(");
        let sg = sig_text(&f.ptr_params);
        out.append(sg.as_str());
        if f.varargs {
            out.append(", ...)\n");
        } else {
            out.append(")\n");
        }
        out
    } else {
        let mut out = String::from_str("define ");
        let rt = ret_type(&f.ret);
        out.append(rt.as_str());
        out.append(" @");
        out.append(f.name.as_str());
        out.append("(");
        let np = named_params_text(&f.ptr_params);
        out.append(np.as_str());
        out.append(") {\nentry:\n");
        let ghost fv = f@;
        let mut i: usize = 0;
        #[verifier::loop_isolation(false)]
        while i < f.body.len()
            invariant
                i <= f.body@.len(),
                out@.add(spec_body(m@.funcs, fv.body, i as int)) == "define "@.add(
                    spec_ret_type(fv.ret),
                ).add(" @"@).add(fv.name).add("("@).add(
                    spec_named_params(fv.ptr_params, 0),
                ).add(") {\nentry:\n"@).add(spec_body(m@.funcs, fv.body, 0)),
            decreases f.body@.len() - i,
        {
            proof {
                assert(fv.body[i as int] == f.body@[i as int]@);
            }
            let t = inst_text(m, &f.body[i]);
            out.append(t.as_str());
            i = i + 1;
        }
        out.append("}\n");
        out
    }
}

/// The whole module as textual IR: globals, then functions.
pub fn module_to_text(m: &NativeModule) -> (r: String)
    ensures
        r@ == spec_module_text(m@),
{
    let mut out = String::new();
    let mut i: usize = 0;
    proof {
        assert(out@ =~= Seq::<char>::empty());
    }
    while i < m.globals.len()
        invariant
            i <= m@.globals.len(),
            out@.add(spec_globals(m@.globals, i as int)) == spec_globals(m@.globals, 0),
        decreases m@.globals.len() - i,
    {
        proof {
            assert(m@.globals[i as int] == m.globals@[i as int]@);
        }
        let t = global_text(i, &m.globals[i]);
        out.append(t.as_str());
        i = i + 1;
    }
    let mut k: usize = 0;
    while k < m.funcs.len()
        invariant
            k <= m@.funcs.len(),
            out@.add(spec_funcs(m@.funcs, k as int)) == spec_globals(m@.globals, 0).add(
                spec_funcs(m@.funcs, 0),
            ),
        decreases m@.funcs.len() - k,
    {
        proof {
            assert(m@.funcs[k as int] == m.funcs@[k as int]@);
        }
        out.append("\n");
        let t = func_text(m, &m.funcs[k]);
        out.append(t.as_str());
        k = k + 1;
    }
    out
}

} // verus!
