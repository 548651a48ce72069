use rustx86_core::cpu::float::{f64_to_f80, f80_to_f64, scale2};

#[test]
fn f80_roundtrip_keeps_f64_values() {
    for v in [
        0.0f64,
        -0.0,
        1.0,
        -1.0,
        3.0,
        0.02,
        1e-300,
        1e300,
        1.5e-320,
        std::f64::consts::PI,
    ] {
        let (m, se) = f64_to_f80(v.to_bits());
        let back = f80_to_f64(m, se);
        assert_eq!(back, v.to_bits(), "{v} changed on the way");
    }
    let (m, se) = f64_to_f80(f64::INFINITY.to_bits());
    assert_eq!(f80_to_f64(m, se), f64::INFINITY.to_bits());
    let (m, se) = f64_to_f80(f64::NAN.to_bits());
    assert!(f64::from_bits(f80_to_f64(m, se)).is_nan());
}

#[test]
fn f80_literals_from_real_hardware() {
    // 3.0 is 4000C000000000000000
    assert_eq!(f64::from_bits(f80_to_f64(0xC000_0000_0000_0000, 0x4000)), 3.0);
    // 1.0 is 3FFF8000000000000000
    assert_eq!(f64::from_bits(f80_to_f64(0x8000_0000_0000_0000, 0x3FFF)), 1.0);
    // 10.0 is 4002A000000000000000
    assert_eq!(f64::from_bits(f80_to_f64(0xA000_0000_0000_0000, 0x4002)), 10.0);
}

#[test]
fn scale2_covers_the_range() {
    assert_eq!(f64::from_bits(scale2(1.0f64.to_bits(), 10)), 1024.0);
    assert_eq!(f64::from_bits(scale2(1.0f64.to_bits(), -10)), 1.0 / 1024.0);
    assert_eq!(f64::from_bits(scale2(1.5f64.to_bits(), 0)), 1.5);
    assert_eq!(f64::from_bits(scale2(1.0f64.to_bits(), 1050)), f64::INFINITY);
}

use rustx86_core::cpu::float::{
    double_of_int, exponent_for_scale, int64_to_double, int_to_single, narrow_double, order64,
    round_integral, to_int, truncate, widen, Arith, FloatOp, FloatOrder, FloatThen, SseFormat,
};
use rustx86_core::cpu::fpu::{complete_float, Fpu};
use rustx86_core::cpu::state::{BX, CS, SP};
use rustx86_core::cpu::{step, SegHidden};
use rustx86_core::machine::{Machine, MachineProfile};

fn flat(code: &[u8]) -> Machine {
    let mut m = Machine::new(0x11_0000, MachineProfile { has_fpu: true, has_cpuid: true }, 1000);
    m.store(0x8000, code);
    m.cpu.cr0 = 1;
    for i in 0..6usize {
        m.cpu.hidden[i] = SegHidden { base: 0, limit: 0xFFFF_FFFF, access: 0x93, big: true };
        m.cpu.sregs[i] = 0x18;
    }
    m.cpu.sregs[CS] = 0x10;
    m.cpu.ip = 0x8000;
    m.cpu.set_reg32(SP, 0x7000);
    m
}

#[test]
fn doubles_are_ordered() {
    let b = |v: f64| v.to_bits();
    assert_eq!(order64(b(-1.0), b(2.0)), FloatOrder::Less);
    assert_eq!(order64(b(0.0), b(-0.0)), FloatOrder::Equal);
    assert_eq!(order64(b(f64::INFINITY), b(1e300)), FloatOrder::Greater);
    assert_eq!(order64(b(f64::NAN), b(1.0)), FloatOrder::Unordered);
}

#[test]
fn singles_become_doubles_and_back() {
    for v in [0.0f32, -0.0, 1.0, -2.5, 1e-40, f32::MAX, f32::MIN_POSITIVE] {
        assert_eq!(widen(v.to_bits()), (v as f64).to_bits());
        assert_eq!(narrow_double((v as f64).to_bits()), v.to_bits());
    }
    for v in [0.1f64, 1e40, -1e-46, 16777217.0, f64::INFINITY] {
        assert_eq!(narrow_double(v.to_bits()), (v as f32).to_bits(), "{v}");
    }
}

#[test]
fn integers_become_doubles() {
    for v in [0i64, 1, -1, 12345, i32::MIN as i64, i32::MAX as i64] {
        assert_eq!(double_of_int(v), (v as f64).to_bits());
    }
    for v in [i64::MAX, i64::MIN, (1 << 53) + 1, -((1 << 54) + 3), 7] {
        assert_eq!(int64_to_double(v), (v as f64).to_bits(), "{v}");
    }
    for v in [0i64, 16777217, -5, i32::MAX as i64] {
        assert_eq!(int_to_single(v), (v as f32).to_bits(), "{v}");
    }
}

#[test]
fn doubles_become_integers() {
    assert_eq!(truncate(2.9f64.to_bits()), 2);
    assert_eq!(truncate((-2.9f64).to_bits()), -2);
    // to nearest, down, up, towards zero
    assert_eq!(to_int(2.5f64.to_bits(), 0, 4), 2);
    assert_eq!(to_int(3.5f64.to_bits(), 0, 4), 4);
    assert_eq!(to_int((-2.5f64).to_bits(), 1, 4), -3);
    assert_eq!(to_int(2.1f64.to_bits(), 2, 4), 3);
    assert_eq!(to_int((-2.9f64).to_bits(), 3, 4), -2);
    assert_eq!(f64::from_bits(round_integral(2.5f64.to_bits(), 0)), 2.0);
    assert_eq!(f64::from_bits(round_integral(2.5f64.to_bits(), 2)), 3.0);
}

#[test]
fn exponents_for_scaling_are_limited() {
    assert_eq!(exponent_for_scale(3.7f64.to_bits()), 3);
    assert_eq!(exponent_for_scale(1e300f64.to_bits()), 99999);
    assert_eq!(exponent_for_scale((-1e300f64).to_bits()), -99999);
    assert_eq!(exponent_for_scale(f64::NAN.to_bits()), 0);
}

#[test]
fn the_register_stack_turns() {
    let mut f = Fpu::new();
    assert!(f.st_empty(0));
    f.push(1.0f64.to_bits());
    f.push(2.0f64.to_bits());
    assert_eq!(f.st(0), 2.0f64.to_bits());
    assert_eq!(f.st(1), 1.0f64.to_bits());
    assert_eq!(f.status() >> 11 & 7, 6);
    f.pop();
    assert_eq!(f.st(0), 1.0f64.to_bits());
    assert!(f.st_empty(7));
    let w = f.tag_word();
    let mut g = Fpu::new();
    g.load_tag_word(w);
    assert_eq!(g.empty, f.empty);
}

#[test]
fn mmx_registers_are_significands() {
    let mut f = Fpu::new();
    f.set_mm(3, 0x1122_3344_5566_7788);
    assert_eq!(f.mm(3), 0x1122_3344_5566_7788);
    assert_eq!(f.mm(4), 0);
    f.emms();
    assert!(f.st_empty(0));
}

#[test]
fn an_addition_is_asked_of_the_unit() {
    // fld qword [ebx]; fadd qword [ebx+8]; fstp qword [ebx+16]
    let mut m = flat(&[0xDD, 0x03, 0xDC, 0x43, 0x08, 0xDD, 0x5B, 0x10]);
    m.cpu.set_reg32(BX, 0x600);
    m.store(0x600, &1.5f64.to_le_bytes());
    m.store(0x608, &2.25f64.to_le_bytes());
    step(&mut m);
    assert_eq!(m.cpu.fpu.st(0), 1.5f64.to_bits());
    step(&mut m);
    let q = m.float_request.unwrap();
    assert_eq!(q.op, FloatOp::Double(Arith::Add));
    assert_eq!((q.a, q.b), (1.5f64.to_bits() as u128, 2.25f64.to_bits() as u128));
    assert_eq!(q.target, FloatThen::SetSt { i: 0, pop: false });
    complete_float(&mut m, 3.75f64.to_bits() as u128, 0);
    assert!(m.float_request.is_none());
    step(&mut m);
    assert_eq!(&m.mem[0x610..0x618], &3.75f64.to_le_bytes());
    assert!(m.cpu.fpu.st_empty(0));
}

#[test]
fn long_reals_and_integers_in_memory() {
    // fild dword [ebx]; fstp tbyte [ebx+16]; fld tbyte [ebx+16]; fistp word [ebx+4]
    let mut m = flat(&[0xDB, 0x03, 0xDB, 0x7B, 0x10, 0xDB, 0x6B, 0x10, 0xDF, 0x5B, 0x04]);
    m.cpu.set_reg32(BX, 0x600);
    m.store(0x600, &(-10i32).to_le_bytes());
    for _ in 0..4 {
        step(&mut m);
    }
    assert_eq!(&m.mem[0x610..0x61A], &[0, 0, 0, 0, 0, 0, 0, 0xA0, 0x02, 0xC0]);
    assert_eq!(&m.mem[0x604..0x606], &(-10i16).to_le_bytes());
}

#[test]
fn constants_and_comparison() {
    // fldz; fld1; fcomip st0, st1
    let mut m = flat(&[0xD9, 0xEE, 0xD9, 0xE8, 0xDF, 0xF1]);
    for _ in 0..3 {
        step(&mut m);
    }
    // 1 is above 0
    assert!(!m.cpu.flag(1) && !m.cpu.flag(0x40));
    assert_eq!(m.cpu.fpu.st(0), 0);
}

#[test]
fn sse_arithmetic_is_asked_by_lanes() {
    // addps xmm1, xmm2; addsd xmm1, xmm2
    let mut m = flat(&[0x0F, 0x58, 0xCA, 0xF2, 0x0F, 0x58, 0xCA]);
    m.cpu.xmm[1] = 0x1111;
    m.cpu.xmm[2] = 0x2222;
    step(&mut m);
    let q = m.float_request.unwrap();
    assert_eq!(q.op, FloatOp::Lanes { op: Arith::Add, format: SseFormat::PackedSingle });
    assert_eq!((q.a, q.b, q.target), (0x1111, 0x2222, FloatThen::Xmm { reg: 1 }));
    complete_float(&mut m, 0x3333, 0);
    assert_eq!(m.cpu.xmm[1], 0x3333);
    m.cpu.xmm[1] = 7 << 64;
    step(&mut m);
    complete_float(&mut m, 9, 0);
    assert_eq!(m.cpu.xmm[1], (7 << 64) + 9);
}

#[test]
fn a_tangent_leaves_one_on_top() {
    // fld1; fptan
    let mut m = flat(&[0xD9, 0xE8, 0xD9, 0xF2]);
    step(&mut m);
    step(&mut m);
    let q = m.float_request.unwrap();
    assert_eq!((q.op, q.target), (FloatOp::Tangent, FloatThen::SetPushOne));
    complete_float(&mut m, 1.5f64.to_bits() as u128, 0);
    assert_eq!((m.cpu.fpu.st(0), m.cpu.fpu.st(1)), (1.0f64.to_bits(), 1.5f64.to_bits()));
}

#[test]
fn what_does_not_fit_becomes_the_least_integer() {
    // fld qword [ebx]; fistp qword [ebx+8]; fld qword [ebx]; fistp dword [ebx+16]
    for v in [9_223_372_036_854_775_808.0f64, 1e30, -1e30, f64::INFINITY, f64::NAN] {
        let mut m = flat(&[0xDD, 0x03, 0xDF, 0x7B, 0x08, 0xDD, 0x03, 0xDB, 0x5B, 0x10]);
        m.cpu.set_reg32(BX, 0x600);
        m.store(0x600, &v.to_bits().to_le_bytes());
        for _ in 0..4 {
            step(&mut m);
        }
        assert_eq!(&m.mem[0x608..0x610], &[0, 0, 0, 0, 0, 0, 0, 0x80]);
        assert_eq!(&m.mem[0x610..0x614], &[0, 0, 0, 0x80]);
    }
    assert_eq!(to_int(32_768.0f64.to_bits(), 0, 2), -32_768);
    assert_eq!(to_int(32_767.0f64.to_bits(), 0, 2), 32_767);
    assert_eq!(to_int(9_223_372_036_854_774_784.0f64.to_bits(), 0, 8), 9_223_372_036_854_774_784);
    assert_eq!(to_int(9_223_372_036_854_775_808.0f64.to_bits(), 0, 8), -9_223_372_036_854_775_808);
}
