//! End-to-end tests: compile small modules and execute the emitted
//! listing under a text-level simulator of the target processor subset
//! the generator uses.

use wasm_z80::{CompileError, FunctionDef, Labeler, Module, Op};

/// A simulator for the instruction subset the generator emits. Code
/// addresses are line indices of the listing; data lives in a flat
/// 16-bit address space.
struct Sim {
    mem: Vec<u8>,
    a: u8,
    b: u8,
    c: u8,
    d: u8,
    e: u8,
    h: u8,
    l: u8,
    ix: u16,
    iy: u16,
    sp: u16,
    carry: bool,
    zero: bool,
}

impl Sim {
    fn new() -> Sim {
        Sim {
            mem: vec![0u8; 0x10000],
            a: 0,
            b: 0,
            c: 0,
            d: 0,
            e: 0,
            h: 0,
            l: 0,
            ix: 0,
            iy: 0,
            sp: 0,
            carry: false,
            zero: false,
        }
    }

    fn get8(&self, r: &str) -> u8 {
        match r {
            "A" => self.a,
            "B" => self.b,
            "C" => self.c,
            "D" => self.d,
            "E" => self.e,
            "H" => self.h,
            "L" => self.l,
            _ => panic!("unknown 8-bit register {}", r),
        }
    }

    fn set8(&mut self, r: &str, v: u8) {
        match r {
            "A" => self.a = v,
            "B" => self.b = v,
            "C" => self.c = v,
            "D" => self.d = v,
            "E" => self.e = v,
            "H" => self.h = v,
            "L" => self.l = v,
            _ => panic!("unknown 8-bit register {}", r),
        }
    }

    fn get16(&self, r: &str) -> u16 {
        match r {
            "BC" => ((self.b as u16) << 8) | self.c as u16,
            "DE" => ((self.d as u16) << 8) | self.e as u16,
            "HL" => ((self.h as u16) << 8) | self.l as u16,
            "IX" => self.ix,
            "IY" => self.iy,
            "SP" => self.sp,
            _ => panic!("unknown 16-bit register {}", r),
        }
    }

    fn set16(&mut self, r: &str, v: u16) {
        match r {
            "BC" => {
                self.b = (v >> 8) as u8;
                self.c = v as u8;
            }
            "DE" => {
                self.d = (v >> 8) as u8;
                self.e = v as u8;
            }
            "HL" => {
                self.h = (v >> 8) as u8;
                self.l = v as u8;
            }
            "IX" => self.ix = v,
            "IY" => self.iy = v,
            "SP" => self.sp = v,
            _ => panic!("unknown 16-bit register {}", r),
        }
    }

    fn push16(&mut self, v: u16) {
        self.sp = self.sp.wrapping_sub(2);
        self.mem[self.sp as usize] = v as u8;
        self.mem[self.sp.wrapping_add(1) as usize] = (v >> 8) as u8;
    }

    fn pop16(&mut self) -> u16 {
        let lo = self.mem[self.sp as usize] as u16;
        let hi = self.mem[self.sp.wrapping_add(1) as usize] as u16;
        self.sp = self.sp.wrapping_add(2);
        (hi << 8) | lo
    }

    fn logic_flags(&mut self) {
        self.zero = self.a == 0;
        self.carry = false;
    }
}

fn parse_imm(s: &str) -> u16 {
    if let Some(hex) = s.strip_prefix("0x") {
        u16::from_str_radix(hex, 16).unwrap()
    } else {
        s.parse::<u16>().unwrap()
    }
}

/// An `(IY+4)`-style indexed operand: register name and displacement.
fn parse_indexed(s: &str) -> (String, u16) {
    let inner = s.trim_start_matches('(').trim_end_matches(')');
    let (reg, disp) = inner.split_once('+').unwrap();
    (reg.to_string(), parse_imm(disp))
}

/// Runs the listing until `HALT`; returns the machine state.
fn run(listing: &str) -> Sim {
    let lines: Vec<&str> = listing.lines().collect();
    let mut labels = std::collections::HashMap::new();
    for (i, line) in lines.iter().enumerate() {
        if !line.starts_with(' ') && line.ends_with(':') {
            labels.insert(line.trim_end_matches(':').to_string(), i);
        }
    }
    let mut sim = Sim::new();
    let mut pc: usize = 0;
    let mut steps: u64 = 0;
    loop {
        steps += 1;
        assert!(steps < 10_000_000, "simulation did not halt");
        assert!(pc < lines.len(), "ran off the end of the listing");
        let line = lines[pc].trim();
        pc += 1;
        if line.is_empty() || line.starts_with(';') || line.ends_with(':') {
            continue;
        }
        let (mnem, rest) = match line.split_once(' ') {
            Some((m, r)) => (m, r.trim()),
            None => (line, ""),
        };
        match mnem {
            "HALT" => return sim,
            "CALL" => {
                let target = labels[rest];
                sim.push16(pc as u16);
                pc = target;
            }
            "RET" => {
                pc = sim.pop16() as usize;
            }
            "PUSH" => {
                let v = sim.get16(rest);
                sim.push16(v);
            }
            "POP" => {
                let v = sim.pop16();
                sim.set16(rest, v);
            }
            "JP" | "JR" => {
                let (cond, target) = match rest.split_once(',') {
                    Some((c, t)) => (c, t),
                    None => ("", rest),
                };
                let taken = match cond {
                    "" => true,
                    "Z" => sim.zero,
                    "NZ" => !sim.zero,
                    "C" => sim.carry,
                    "NC" => !sim.carry,
                    other => panic!("unknown condition {}", other),
                };
                if taken {
                    pc = labels[target];
                }
            }
            "LD" => {
                let (dst, src) = rest.split_once(',').unwrap();
                if dst.starts_with('(') {
                    let (reg, disp) = parse_indexed(dst);
                    let addr = sim.get16(&reg).wrapping_add(disp);
                    let v = sim.get8(src);
                    sim.mem[addr as usize] = v;
                } else if src.starts_with('(') {
                    let (reg, disp) = parse_indexed(src);
                    let addr = sim.get16(&reg).wrapping_add(disp);
                    let v = sim.mem[addr as usize];
                    sim.set8(dst, v);
                } else if dst.len() == 2 {
                    let v = if src.chars().next().unwrap().is_ascii_digit() {
                        parse_imm(src)
                    } else {
                        sim.get16(src)
                    };
                    sim.set16(dst, v);
                } else {
                    let v = if src.chars().next().unwrap().is_ascii_digit() {
                        parse_imm(src) as u8
                    } else {
                        sim.get8(src)
                    };
                    sim.set8(dst, v);
                }
            }
            "ADD" => {
                let (dst, src) = rest.split_once(',').unwrap();
                let x = sim.get16(dst);
                let y = sim.get16(src);
                let (sum, over) = x.overflowing_add(y);
                sim.set16(dst, sum);
                sim.carry = over;
            }
            "ADC" => {
                let (dst, src) = rest.split_once(',').unwrap();
                let x = sim.get16(dst) as u32;
                let y = sim.get16(src) as u32;
                let sum = x + y + sim.carry as u32;
                sim.set16(dst, sum as u16);
                sim.carry = sum > 0xFFFF;
                sim.zero = (sum as u16) == 0;
            }
            "SBC" => {
                let (dst, src) = rest.split_once(',').unwrap();
                let x = sim.get16(dst) as i32;
                let y = sim.get16(src) as i32;
                let diff = x - y - sim.carry as i32;
                sim.set16(dst, diff as u16);
                sim.carry = diff < 0;
                sim.zero = (diff as u16) == 0;
            }
            "AND" => {
                let v = sim.get8(rest);
                sim.a &= v;
                sim.logic_flags();
            }
            "OR" => {
                let v = sim.get8(rest);
                sim.a |= v;
                sim.logic_flags();
            }
            "EX" => {
                assert_eq!(rest, "DE,HL");
                let de = sim.get16("DE");
                let hl = sim.get16("HL");
                sim.set16("DE", hl);
                sim.set16("HL", de);
            }
            other => panic!("unknown mnemonic {} in line {:?}", other, line),
        }
    }
}

/// The 32-bit value on top of the operand stack after `HALT`: the high
/// word sits at the stack pointer, the low word above it.
fn top_value(sim: &Sim) -> u32 {
    let hi = sim.mem[sim.sp as usize] as u32 | ((sim.mem[sim.sp as usize + 1] as u32) << 8);
    let lo = sim.mem[sim.sp as usize + 2] as u32 | ((sim.mem[sim.sp as usize + 3] as u32) << 8);
    (hi << 16) | lo
}

fn func(param_count: usize, result_count: usize, local_count: u32, body: Vec<Op>) -> FunctionDef {
    FunctionDef { param_count, result_count, local_count, body }
}

fn compile_ok(m: &Module) -> String {
    m.compile().unwrap()
}

/// Compiles and runs a module whose entry takes no parameters and
/// returns one result; yields that result.
fn run_entry(m: &Module) -> u32 {
    let listing = compile_ok(m);
    let sim = run(&listing);
    top_value(&sim)
}

/// A module whose entry pushes `a` and `b` and calls a two-parameter
/// function with the given body.
fn binop_module(a: u32, b: u32, body: Vec<Op>) -> Module {
    Module {
        entry: 0,
        functions: vec![
            func(
                0,
                1,
                0,
                vec![
                    Op::I32Const { value: a as i32 },
                    Op::I32Const { value: b as i32 },
                    Op::Call { function_index: 1 },
                    Op::End,
                ],
            ),
            func(2, 1, 0, body),
        ],
    }
}

fn run_binop(a: u32, b: u32, op: Op) -> u32 {
    let m = binop_module(
        a,
        b,
        vec![Op::LocalGet { local_index: 0 }, Op::LocalGet { local_index: 1 }, op, Op::End],
    );
    run_entry(&m)
}

fn run_unop(a: u32, op: Op) -> u32 {
    let m = Module {
        entry: 0,
        functions: vec![
            func(
                0,
                1,
                0,
                vec![
                    Op::I32Const { value: a as i32 },
                    Op::Call { function_index: 1 },
                    Op::End,
                ],
            ),
            func(1, 1, 0, vec![Op::LocalGet { local_index: 0 }, op, Op::End]),
        ],
    };
    run_entry(&m)
}

#[test]
fn s1_constant_return() {
    let m = Module {
        entry: 0,
        functions: vec![func(0, 1, 0, vec![Op::I32Const { value: 42 }, Op::End])],
    };
    assert_eq!(run_entry(&m), 42);
}

#[test]
fn s1_exact_listing() {
    let m = Module {
        entry: 0,
        functions: vec![func(0, 1, 0, vec![Op::I32Const { value: 42 }, Op::End])],
    };
    let expected = "LD SP,0xFFFB\nCALL func_0\nHALT\nfunc_0:\n  LD IY,0\n  ADD IY,SP\n  ; i32.const\n  LD DE,42\n  PUSH DE\n  LD DE,0\n  PUSH DE\n  POP DE\n  POP BC\n  POP HL\n  PUSH BC\n  PUSH DE\n  PUSH HL\n  RET\n";
    assert_eq!(compile_ok(&m), expected);
}

#[test]
fn s2_identity() {
    let m = Module {
        entry: 0,
        functions: vec![
            func(
                0,
                1,
                0,
                vec![
                    Op::I32Const { value: 0xDEADBEEFu32 as i32 },
                    Op::Call { function_index: 1 },
                    Op::End,
                ],
            ),
            func(1, 1, 0, vec![Op::LocalGet { local_index: 0 }, Op::End]),
        ],
    };
    assert_eq!(run_entry(&m), 0xDEADBEEF);
}

#[test]
fn s3_add_carries_into_high_word() {
    assert_eq!(run_binop(0x0000FFFF, 0x00000001, Op::I32Add), 0x00010000);
}

#[test]
fn s4_loop_count_down() {
    // The callee counts its second parameter up by one per iteration and
    // loops while the limit is still greater; it returns the number of
    // iterations taken.
    let m = Module {
        entry: 0,
        functions: vec![
            func(
                0,
                1,
                0,
                vec![
                    Op::I32Const { value: 0x10 },
                    Op::I32Const { value: 0 },
                    Op::Call { function_index: 1 },
                    Op::End,
                ],
            ),
            func(
                2,
                1,
                0,
                vec![
                    Op::Loop { empty_block_type: true },
                    Op::LocalGet { local_index: 0 },
                    Op::LocalGet { local_index: 1 },
                    Op::I32Const { value: 1 },
                    Op::I32Add,
                    Op::LocalTee { local_index: 1 },
                    Op::I32GtU,
                    Op::BrIf { relative_depth: 0 },
                    Op::LocalGet { local_index: 1 },
                    Op::End,
                ],
            ),
        ],
    };
    assert_eq!(run_entry(&m), 0x10);
}

#[test]
fn s5_memory_round_trip() {
    let m = Module {
        entry: 0,
        functions: vec![func(
            0,
            1,
            0,
            vec![
                Op::I32Const { value: 0x1000 },
                Op::I32Const { value: 0xAB },
                Op::I32Store8 { offset: 0 },
                Op::I32Const { value: 0x1000 },
                Op::I32Load8U { offset: 0 },
                Op::End,
            ],
        )],
    };
    assert_eq!(run_entry(&m), 0x000000AB);
}

#[test]
fn s5_memory_round_trip_with_offset() {
    let m = Module {
        entry: 0,
        functions: vec![func(
            0,
            1,
            0,
            vec![
                Op::I32Const { value: 0x1000 },
                Op::I32Const { value: 0x5C },
                Op::I32Store8 { offset: 8 },
                Op::I32Const { value: 0x1008 },
                Op::I32Load8U { offset: 0 },
                Op::End,
            ],
        )],
    };
    assert_eq!(run_entry(&m), 0x0000005C);
}

fn select_module(v1: u32, v2: u32, cond: u32) -> Module {
    Module {
        entry: 0,
        functions: vec![func(
            0,
            1,
            0,
            vec![
                Op::I32Const { value: v1 as i32 },
                Op::I32Const { value: v2 as i32 },
                Op::I32Const { value: cond as i32 },
                Op::Select,
                Op::End,
            ],
        )],
    }
}

#[test]
fn s6_select_zero_takes_second() {
    assert_eq!(run_entry(&select_module(0x11223344, 0x55667788, 0)), 0x55667788);
}

#[test]
fn s6_select_one_takes_first() {
    assert_eq!(run_entry(&select_module(0x11223344, 0x55667788, 1)), 0x11223344);
}

#[test]
fn add_samples_match_wrapping_add() {
    let cases: [(u32, u32); 6] = [
        (0, 0),
        (1, 2),
        (0xFFFFFFFF, 1),
        (0x80000000, 0x80000000),
        (0x12345678, 0x9ABCDEF0),
        (0x0000FFFF, 0xFFFF0001),
    ];
    for (a, b) in cases {
        assert_eq!(run_binop(a, b, Op::I32Add), a.wrapping_add(b), "add {} {}", a, b);
    }
}

#[test]
fn and_samples_match_bitwise_and() {
    let cases: [(u32, u32); 4] = [
        (0xFFFFFFFF, 0x12345678),
        (0xF0F0F0F0, 0x0FF00FF0),
        (0, 0xDEADBEEF),
        (0xAAAA5555, 0x5555AAAA),
    ];
    for (a, b) in cases {
        assert_eq!(run_binop(a, b, Op::I32And), a & b, "and {} {}", a, b);
    }
}

#[test]
fn gt_u_samples_match_unsigned_compare() {
    let cases: [(u32, u32); 6] = [
        (1, 2),
        (2, 1),
        (5, 5),
        (0x80000000, 1),
        (1, 0x80000000),
        (0xFFFFFFFF, 0xFFFFFFFE),
    ];
    for (a, b) in cases {
        assert_eq!(run_binop(a, b, Op::I32GtU), (a > b) as u32, "gt_u {} {}", a, b);
    }
}

#[test]
fn eqz_samples() {
    assert_eq!(run_unop(0, Op::I32Eqz), 1);
    assert_eq!(run_unop(1, Op::I32Eqz), 0);
    assert_eq!(run_unop(0x10000, Op::I32Eqz), 0);
    assert_eq!(run_unop(0xFFFFFFFF, Op::I32Eqz), 0);
}

#[test]
fn compile_is_deterministic() {
    let m = binop_module(
        7,
        9,
        vec![
            Op::LocalGet { local_index: 0 },
            Op::LocalGet { local_index: 1 },
            Op::I32GtU,
            Op::I32Eqz,
            Op::End,
        ],
    );
    let first = compile_ok(&m);
    let second = compile_ok(&m);
    assert_eq!(first, second);
}

#[test]
fn label_definitions_are_unique() {
    let m = Module {
        entry: 0,
        functions: vec![
            func(
                0,
                1,
                0,
                vec![
                    Op::I32Const { value: 4 },
                    Op::I32Eqz,
                    Op::I32Const { value: 3 },
                    Op::I32GtU,
                    Op::I32Const { value: 0 },
                    Op::Select,
                    Op::End,
                ],
            ),
            func(
                1,
                1,
                0,
                vec![
                    Op::Loop { empty_block_type: true },
                    Op::LocalGet { local_index: 0 },
                    Op::I32Eqz,
                    Op::BrIf { relative_depth: 0 },
                    Op::LocalGet { local_index: 0 },
                    Op::End,
                ],
            ),
        ],
    };
    let listing = compile_ok(&m);
    let mut seen = std::collections::HashSet::new();
    let mut found = 0;
    for line in listing.lines() {
        if line.starts_with("label_") && line.ends_with(':') {
            assert!(seen.insert(line.to_string()), "duplicate definition {}", line);
            found += 1;
        }
    }
    assert!(found >= 7, "expected several label definitions, found {}", found);
}

#[test]
fn unsupported_operator_is_rejected() {
    let m = Module {
        entry: 0,
        functions: vec![func(0, 0, 0, vec![Op::Unsupported, Op::End])],
    };
    assert_eq!(m.compile().unwrap_err(), CompileError::UnsupportedOperator);
}

#[test]
fn deep_branch_is_rejected() {
    let m = Module {
        entry: 0,
        functions: vec![func(
            0,
            0,
            0,
            vec![Op::Loop { empty_block_type: true }, Op::Br { relative_depth: 1 }, Op::End],
        )],
    };
    assert_eq!(m.compile().unwrap_err(), CompileError::UnsupportedControl);
}

#[test]
fn deep_conditional_branch_is_rejected() {
    let m = Module {
        entry: 0,
        functions: vec![func(
            0,
            0,
            0,
            vec![
                Op::Loop { empty_block_type: true },
                Op::I32Const { value: 1 },
                Op::BrIf { relative_depth: 2 },
                Op::End,
            ],
        )],
    };
    assert_eq!(m.compile().unwrap_err(), CompileError::UnsupportedControl);
}

#[test]
fn typed_loop_is_rejected() {
    let m = Module {
        entry: 0,
        functions: vec![func(0, 0, 0, vec![Op::Loop { empty_block_type: false }, Op::End])],
    };
    assert_eq!(m.compile().unwrap_err(), CompileError::UnsupportedControl);
}

#[test]
fn two_results_are_rejected() {
    let m = Module {
        entry: 0,
        functions: vec![func(0, 2, 0, vec![Op::I32Const { value: 1 }, Op::End])],
    };
    assert_eq!(m.compile().unwrap_err(), CompileError::UnsupportedArity);
}

#[test]
fn malformed_body_is_rejected() {
    let m = Module {
        entry: 0,
        functions: vec![func(0, 0, 0, vec![Op::I32Const { value: 1 }, Op::Malformed])],
    };
    assert_eq!(m.compile().unwrap_err(), CompileError::MalformedBody);
}

#[test]
fn error_aborts_without_partial_output() {
    let m = Module {
        entry: 0,
        functions: vec![
            func(0, 1, 0, vec![Op::I32Const { value: 1 }, Op::End]),
            func(0, 0, 0, vec![Op::Unsupported]),
        ],
    };
    assert!(m.compile().is_err());
}

#[test]
fn callee_with_locals_gets_zeroed_slots() {
    // The caller allocates the callee's local slots; a callee that only
    // returns a constant still unwinds cleanly.
    let m = Module {
        entry: 0,
        functions: vec![
            func(0, 1, 0, vec![Op::Call { function_index: 1 }, Op::End]),
            func(0, 1, 2, vec![Op::I32Const { value: 77 }, Op::End]),
        ],
    };
    assert_eq!(run_entry(&m), 77);
}

#[test]
fn labeler_counts_up_and_renders() {
    let mut labeler = Labeler::new();
    let first = labeler.next();
    let second = labeler.next();
    assert_eq!(first.render(), "label_0");
    assert_eq!(second.render(), "label_1");
    assert_eq!(wasm_z80::dec_str(0), "0");
    assert_eq!(wasm_z80::dec_str(90210), "90210");
    assert_eq!(wasm_z80::dec_str(u64::MAX), "18446744073709551615");
}

#[test]
fn emitted_pushes_balance_result_arity() {
    // For a branch-free body the net count of PUSH minus POP lines
    // between prologue and epilogue is two 2-byte words per result.
    let m = Module {
        entry: 0,
        functions: vec![func(
            2,
            1,
            0,
            vec![
                Op::LocalGet { local_index: 0 },
                Op::LocalGet { local_index: 1 },
                Op::I32Add,
                Op::End,
            ],
        )],
    };
    let listing = compile_ok(&m);
    let lines: Vec<&str> = listing.lines().collect();
    let start = lines.iter().position(|l| *l == "  ADD IY,SP").unwrap() + 1;
    // The epilogue is the three-word rotate (six lines) plus RET.
    let end = lines.len() - 7;
    let mut net: i64 = 0;
    for line in &lines[start..end] {
        if line.starts_with("  PUSH") {
            net += 1;
        }
        if line.starts_with("  POP") {
            net -= 1;
        }
    }
    assert_eq!(net, 2);
}

#[test]
fn eqz_exact_listing_numbers_labels_in_order() {
    // The loop label of the first function is label_0; the two branch
    // labels of `i32.eqz` follow as label_1 and label_2.
    let m = Module {
        entry: 0,
        functions: vec![func(
            0,
            1,
            0,
            vec![Op::I32Const { value: 0 }, Op::I32Eqz, Op::End],
        )],
    };
    let expected = "LD SP,0xFFFB\nCALL func_0\nHALT\nfunc_0:\n  LD IY,0\n  ADD IY,SP\n  ; i32.const\n  LD DE,0\n  PUSH DE\n  LD DE,0\n  PUSH DE\n  ; i32.eqz\n  POP DE\n  LD A,D\n  OR E\n  POP DE\n  OR D\n  OR E\n  JR Z,label_1\n  LD DE,0\n  PUSH DE\n  JR label_2\nlabel_1:\n  LD DE,1\n  PUSH DE\nlabel_2:\n  LD E,0\n  PUSH DE\n  POP DE\n  POP BC\n  POP HL\n  PUSH BC\n  PUSH DE\n  PUSH HL\n  RET\n";
    assert_eq!(compile_ok(&m), expected);
}

#[test]
fn negative_constant_splits_into_halves() {
    let m = Module {
        entry: 0,
        functions: vec![func(0, 1, 0, vec![Op::I32Const { value: -1 }, Op::End])],
    };
    let listing = compile_ok(&m);
    assert!(listing.contains("  LD DE,65535\n"));
    assert_eq!(run_entry(&m), 0xFFFFFFFF);
}

#[test]
fn br_jumps_to_the_loop_label() {
    // The function is never called, so the listing can hold an infinite
    // loop; `br 0` must target the function's single loop label.
    let m = Module {
        entry: 0,
        functions: vec![
            func(0, 1, 0, vec![Op::I32Const { value: 5 }, Op::End]),
            func(
                0,
                0,
                0,
                vec![
                    Op::Loop { empty_block_type: true },
                    Op::Br { relative_depth: 0 },
                    Op::End,
                ],
            ),
        ],
    };
    let listing = compile_ok(&m);
    assert!(listing.contains("label_1:\n  ; br\n  JP label_1\n"));
    assert_eq!(run_entry(&m), 5);
}

#[test]
fn every_function_listing_ends_with_ret() {
    let m = binop_module(
        3,
        4,
        vec![
            Op::LocalGet { local_index: 0 },
            Op::LocalGet { local_index: 1 },
            Op::I32Add,
            Op::End,
        ],
    );
    let listing = compile_ok(&m);
    assert!(listing.ends_with("  RET\n"));
    for part in listing.split("\nfunc_").skip(1) {
        assert!(part.ends_with("  RET\n") || part.ends_with("  RET"));
    }
}
