use iris::{Breakpoint, DecodeFault, Decoder, DwarfVm, DwarfVmError, Op, Region};
use xmas_elf::sections::ShType;
use xmas_elf::ElfFile;

/// A decoder for the encoding of DWARF location expressions.
struct Dis;

fn uleb(bytes: &[u8]) -> Option<(u64, usize)> {
    let mut value: u64 = 0;
    for (i, b) in bytes.iter().enumerate().take(10) {
        value |= u64::from(b & 0x7f) << (7 * i);
        if b & 0x80 == 0 {
            return Some((value, i + 1));
        }
    }
    None
}

fn sleb(bytes: &[u8]) -> Option<(i64, usize)> {
    let mut value: i64 = 0;
    for (i, b) in bytes.iter().enumerate().take(10) {
        value |= i64::from(b & 0x7f) << (7 * i);
        if b & 0x80 == 0 {
            if b & 0x40 != 0 && 7 * (i + 1) < 64 {
                value |= -1i64 << (7 * (i + 1));
            }
            return Some((value, i + 1));
        }
    }
    None
}

fn fixed<const N: usize>(bytes: &[u8]) -> Option<[u8; N]> {
    let mut out = [0u8; N];
    out.copy_from_slice(bytes.get(..N)?);
    Some(out)
}

fn dis(bytes: &[u8]) -> Option<(usize, Op)> {
    let (code, rest) = bytes.split_first()?;
    let found = match *code {
        0x03 => (9, Op::Addr(u64::from_le_bytes(fixed(rest)?))),
        0x06 => (1, Op::Deref),
        0x08 => (2, Op::Const1u(u8::from_le_bytes(fixed(rest)?))),
        0x09 => (2, Op::Const1s(i8::from_le_bytes(fixed(rest)?))),
        0x0a => (3, Op::Const2u(u16::from_le_bytes(fixed(rest)?))),
        0x0b => (3, Op::Const2s(i16::from_le_bytes(fixed(rest)?))),
        0x0c => (5, Op::Const4u(u32::from_le_bytes(fixed(rest)?))),
        0x0d => (5, Op::Const4s(i32::from_le_bytes(fixed(rest)?))),
        0x0e => (9, Op::Const8u(u64::from_le_bytes(fixed(rest)?))),
        0x0f => (9, Op::Const8s(i64::from_le_bytes(fixed(rest)?))),
        0x10 => {
            let (v, n) = uleb(rest)?;
            (1 + n, Op::Constu(v))
        }
        0x11 => {
            let (v, n) = sleb(rest)?;
            (1 + n, Op::Consts(v))
        }
        0x12 => (1, Op::Dup),
        0x13 => (1, Op::Drop),
        0x14 => (1, Op::Over),
        0x15 => (2, Op::Pick(*rest.first()?)),
        0x16 => (1, Op::Swap),
        0x17 => (1, Op::Rot),
        0x19 => (1, Op::Abs),
        0x1a => (1, Op::And),
        0x1b => (1, Op::Div),
        0x1c => (1, Op::Minus),
        0x1d => (1, Op::Mod),
        0x1e => (1, Op::Mul),
        0x1f => (1, Op::Neg),
        0x20 => (1, Op::Not),
        0x21 => (1, Op::Or),
        0x22 => (1, Op::Plus),
        0x23 => {
            let (v, n) = uleb(rest)?;
            (1 + n, Op::PlusConst(v))
        }
        0x24 => (1, Op::Shl),
        0x25 => (1, Op::Shr),
        0x26 => (1, Op::Shra),
        0x27 => (1, Op::Xor),
        0x28 => (3, Op::Bra(i16::from_le_bytes(fixed(rest)?))),
        0x29 => (1, Op::Eq),
        0x2a => (1, Op::Ge),
        0x2b => (1, Op::Gt),
        0x2c => (1, Op::Le),
        0x2d => (1, Op::Lt),
        0x2e => (1, Op::Ne),
        0x2f => (3, Op::Skip(i16::from_le_bytes(fixed(rest)?))),
        0x30..=0x4f => (1, Op::Lit(code - 0x30)),
        0x50..=0x6f => (1, Op::Reg(code - 0x50)),
        0x70..=0x8f => {
            let (v, n) = sleb(rest)?;
            (1 + n, Op::BReg(code - 0x70, v))
        }
        0x90 => {
            let (v, n) = uleb(rest)?;
            (1 + n, Op::RegX(v))
        }
        0x92 => {
            let (r, n) = uleb(rest)?;
            let (v, m) = sleb(rest.get(n..)?)?;
            (1 + n + m, Op::BRegX(r, v))
        }
        0x94 => (2, Op::DerefSize(*rest.first()?)),
        0x96 => (1, Op::Nop),
        _ => return None,
    };
    Some(found)
}

impl Decoder for Dis {
    fn decode(&self, bytes: &[u8]) -> Result<(usize, Op), DecodeFault> {
        dis(bytes).ok_or(DecodeFault)
    }
}

/// What a breakpoint of these tests does when it is reached.
#[derive(Debug, PartialEq)]
enum Hook {
    /// Counts its calls and asks for a halt.
    Halt(u32),
    /// Counts its calls and lets the machine run on.
    Watch(u32),
    /// Records the instruction and puts another in its place.
    Replace(Option<Op>, Op),
    /// Moves the program counter and asks for a halt.
    Jump(u64),
    /// Pushes a word, patches memory, and lets the machine run on.
    Meddle(u64),
    /// Removes the breakpoint of another address and tries to remove its
    /// own.
    Disarm(u64),
    /// Steps the machine from inside the hook.
    Nested(Option<Result<(), DwarfVmError>>),
}

impl<'a> Breakpoint<'a, Dis> for Hook {
    fn on_breakpoint(&mut self, vm: &mut DwarfVm<'a, Dis, Self>, op: &mut Op) -> bool {
        match self {
            Hook::Halt(n) => {
                *n += 1;
                true
            }
            Hook::Watch(n) => {
                *n += 1;
                false
            }
            Hook::Replace(seen, with) => {
                *seen = Some(*op);
                *op = *with;
                false
            }
            Hook::Jump(to) => {
                vm.pc = *to;
                true
            }
            Hook::Meddle(v) => {
                vm.push(*v);
                vm.overlay().insert(0x9000, vec![0xee; 8]);
                false
            }
            Hook::Disarm(other) => {
                let pc = vm.pc;
                assert!(vm.breakpoints().remove(&pc).is_none());
                assert!(vm.breakpoints().remove(other).is_some());
                false
            }
            Hook::Nested(result) => {
                let table_is_empty = vm.breakpoints().is_empty();
                assert!(table_is_empty);
                *result = Some(vm.step());
                false
            }
        }
    }
}

type Vm<'a> = DwarfVm<'a, Dis, Hook>;

const START: u64 = 0x400258;

const CONTEXT: u64 = 0x7fffffe110;

const CODE: [u8; 59] = [
    0x30, 0x08, 0x05, 0x12, 0x17, 0x22, 0x16, 0x31, 0x1c, 0x12, 0x28, 0xf6, 0xff, 0x13, 0x53, 0x23,
    0x90, 0x01, 0x03, 0x20, 0xe0, 0xff, 0xff, 0x7f, 0x00, 0x00, 0x00, 0x94, 0x02, 0x0b, 0xfe, 0xff,
    0x1e, 0x11, 0xff, 0x7e, 0x19, 0x14, 0x15, 0x02, 0x2f, 0x01, 0x00, 0xff, 0x96, 0x0c, 0x00, 0x00,
    0x00, 0x80, 0x0d, 0x00, 0x00, 0x00, 0x80, 0x27, 0x40, 0x25, 0x06,
];

const DATA_START: u64 = 0x7fffffe000;

const DATA_SIZE: usize = 0x200;

fn process_data() -> Vec<u8> {
    let mut data = vec![0u8; DATA_SIZE];
    // Register 3 of the context points at 0x7fffffe040.
    data[0x128..0x130].copy_from_slice(&0x7fffffe040u64.to_le_bytes());
    data[0x40..0x48].copy_from_slice(&0x1111222233334444u64.to_le_bytes());
    data[0x20..0x28].copy_from_slice(&0x7fffffe048u64.to_le_bytes());
    data[0x48..0x50].copy_from_slice(&0xa1b2c3d4e5f60718u64.to_le_bytes());
    data
}

fn section_header(kind: u32, address: u64, offset: u64, size: u64) -> Vec<u8> {
    let mut h = Vec::new();
    h.extend_from_slice(&0u32.to_le_bytes()); // name
    h.extend_from_slice(&kind.to_le_bytes());
    h.extend_from_slice(&0u64.to_le_bytes()); // flags
    h.extend_from_slice(&address.to_le_bytes());
    h.extend_from_slice(&offset.to_le_bytes());
    h.extend_from_slice(&size.to_le_bytes());
    h.extend_from_slice(&0u32.to_le_bytes()); // link
    h.extend_from_slice(&0u32.to_le_bytes()); // info
    h.extend_from_slice(&1u64.to_le_bytes()); // alignment
    h.extend_from_slice(&0u64.to_le_bytes()); // entry size
    h
}

/// A 64-bit little-endian ELF core file with three sections: the null
/// section, the code and the data.
fn process_data_file() -> Vec<u8> {
    let code_offset: u64 = 256;
    let data_offset: u64 = 320;
    let mut f = vec![0x7f, b'E', b'L', b'F', 2, 1, 1, 0, 0, 0, 0, 0, 0, 0, 0, 0];
    f.extend_from_slice(&4u16.to_le_bytes()); // type: core
    f.extend_from_slice(&0x3eu16.to_le_bytes()); // machine
    f.extend_from_slice(&1u32.to_le_bytes()); // version
    f.extend_from_slice(&0u64.to_le_bytes()); // entry point
    f.extend_from_slice(&0u64.to_le_bytes()); // program header offset
    f.extend_from_slice(&64u64.to_le_bytes()); // section header offset
    f.extend_from_slice(&0u32.to_le_bytes()); // flags
    f.extend_from_slice(&64u16.to_le_bytes()); // header size
    f.extend_from_slice(&0u16.to_le_bytes()); // program header entry size
    f.extend_from_slice(&0u16.to_le_bytes()); // program header count
    f.extend_from_slice(&64u16.to_le_bytes()); // section header entry size
    f.extend_from_slice(&3u16.to_le_bytes()); // section header count
    f.extend_from_slice(&0u16.to_le_bytes()); // string table index
    assert_eq!(f.len(), 64);
    f.extend_from_slice(&section_header(0, 0, 0, 0));
    f.extend_from_slice(&section_header(1, START, code_offset, CODE.len() as u64));
    f.extend_from_slice(&section_header(1, DATA_START, data_offset, DATA_SIZE as u64));
    assert_eq!(f.len() as u64, code_offset);
    f.extend_from_slice(&CODE);
    f.resize(data_offset as usize, 0);
    f.extend_from_slice(&process_data());
    f
}

/// The sections of an ELF file as the regions of a base image.
fn regions<'a>(elf: &ElfFile<'a>) -> Vec<Region<'a>> {
    elf.section_iter()
        .map(|section| Region {
            start: section.address(),
            size: section.size(),
            data: match section.get_type() {
                Ok(ShType::Null) | Err(_) => &[],
                Ok(_) => section.raw_data(elf),
            },
        })
        .collect()
}

fn machine<'a>(core: &'a [u8]) -> Vm<'a> {
    let elf = ElfFile::new(core).expect("Could not parse core");
    DwarfVm::new(START, CONTEXT, regions(&elf), Dis)
}

/// The program counter, the size of the stack and its five topmost words,
/// bottom first, before each instruction.
const TRACE: [(u64, usize, &[u64]); 61] = [
    (0x400258, 0, &[]),
    (0x400259, 1, &[0x0]),
    (0x40025b, 2, &[0x0, 0x5]),
    (0x40025c, 3, &[0x0, 0x5, 0x5]),
    (0x40025d, 3, &[0x5, 0x0, 0x5]),
    (0x40025e, 2, &[0x5, 0x5]),
    (0x40025f, 2, &[0x5, 0x5]),
    (0x400260, 3, &[0x5, 0x5, 0x1]),
    (0x400261, 2, &[0x5, 0x4]),
    (0x400262, 3, &[0x5, 0x4, 0x4]),
    (0x40025b, 2, &[0x5, 0x4]),
    (0x40025c, 3, &[0x5, 0x4, 0x4]),
    (0x40025d, 3, &[0x4, 0x5, 0x4]),
    (0x40025e, 2, &[0x4, 0x9]),
    (0x40025f, 2, &[0x9, 0x4]),
    (0x400260, 3, &[0x9, 0x4, 0x1]),
    (0x400261, 2, &[0x9, 0x3]),
    (0x400262, 3, &[0x9, 0x3, 0x3]),
    (0x40025b, 2, &[0x9, 0x3]),
    (0x40025c, 3, &[0x9, 0x3, 0x3]),
    (0x40025d, 3, &[0x3, 0x9, 0x3]),
    (0x40025e, 2, &[0x3, 0xc]),
    (0x40025f, 2, &[0xc, 0x3]),
    (0x400260, 3, &[0xc, 0x3, 0x1]),
    (0x400261, 2, &[0xc, 0x2]),
    (0x400262, 3, &[0xc, 0x2, 0x2]),
    (0x40025b, 2, &[0xc, 0x2]),
    (0x40025c, 3, &[0xc, 0x2, 0x2]),
    (0x40025d, 3, &[0x2, 0xc, 0x2]),
    (0x40025e, 2, &[0x2, 0xe]),
    (0x40025f, 2, &[0xe, 0x2]),
    (0x400260, 3, &[0xe, 0x2, 0x1]),
    (0x400261, 2, &[0xe, 0x1]),
    (0x400262, 3, &[0xe, 0x1, 0x1]),
    (0x40025b, 2, &[0xe, 0x1]),
    (0x40025c, 3, &[0xe, 0x1, 0x1]),
    (0x40025d, 3, &[0x1, 0xe, 0x1]),
    (0x40025e, 2, &[0x1, 0xf]),
    (0x40025f, 2, &[0xf, 0x1]),
    (0x400260, 3, &[0xf, 0x1, 0x1]),
    (0x400261, 2, &[0xf, 0x0]),
    (0x400262, 3, &[0xf, 0x0, 0x0]),
    (0x400265, 2, &[0xf, 0x0]),
    (0x400266, 1, &[0xf]),
    (0x400267, 2, &[0xf, 0x1111222233334444]),
    (0x40026a, 2, &[0xf, 0x11112222333344d4]),
    (0x400273, 3, &[0xf, 0x11112222333344d4, 0x7fffffe048]),
    (0x400275, 3, &[0xf, 0x11112222333344d4, 0x718]),
    (0x400278, 4, &[0xf, 0x11112222333344d4, 0x718, 0xfffffffffffffffe]),
    (0x400279, 3, &[0xf, 0x11112222333344d4, 0xfffffffffffff1d0]),
    (0x40027c, 4, &[0xf, 0x11112222333344d4, 0xfffffffffffff1d0, 0xffffffffffffff7f]),
    (0x40027d, 4, &[0xf, 0x11112222333344d4, 0xfffffffffffff1d0, 0x81]),
    (0x40027e, 5, &[0xf, 0x11112222333344d4, 0xfffffffffffff1d0, 0x81, 0xfffffffffffff1d0]),
    (
        0x400280,
        6,
        &[0x11112222333344d4, 0xfffffffffffff1d0, 0x81, 0xfffffffffffff1d0, 0xfffffffffffff1d0],
    ),
    (
        0x400284,
        6,
        &[0x11112222333344d4, 0xfffffffffffff1d0, 0x81, 0xfffffffffffff1d0, 0xfffffffffffff1d0],
    ),
    (
        0x400285,
        6,
        &[0x11112222333344d4, 0xfffffffffffff1d0, 0x81, 0xfffffffffffff1d0, 0xfffffffffffff1d0],
    ),
    (0x40028a, 7, &[0xfffffffffffff1d0, 0x81, 0xfffffffffffff1d0, 0xfffffffffffff1d0, 0x80000000]),
    (0x40028f, 8, &[0x81, 0xfffffffffffff1d0, 0xfffffffffffff1d0, 0x80000000, 0xffffffff80000000]),
    (
        0x400290,
        7,
        &[0xfffffffffffff1d0, 0x81, 0xfffffffffffff1d0, 0xfffffffffffff1d0, 0xffffffff00000000],
    ),
    (0x400291, 8, &[0x81, 0xfffffffffffff1d0, 0xfffffffffffff1d0, 0xffffffff00000000, 0x10]),
    (0x400292, 7, &[0xfffffffffffff1d0, 0x81, 0xfffffffffffff1d0, 0xfffffffffffff1d0, 0xffffffff0000]),
];

fn short_stack(vm: &Vm) -> Vec<u64> {
    vm.stack.iter().rev().take(5).rev().map(|x| *x).collect::<Vec<u64>>()
}

#[test]
fn sanity() {
    let core = process_data_file();
    let mut dvm = machine(&core);

    assert_eq!(dvm.target_read(0), Ok(&[][..]));
    assert_eq!(dvm.target_read(START), Ok(&CODE[..]));
    assert_eq!(dvm.target_read(DATA_START + 0x100), Ok(&process_data()[0x100..]));

    let mut ins = 0;

    for (pc, stack_sz, stack) in TRACE {
        println!(
            "ins {}, trace pc {:x}, trace stack sz {}, trace stack {:x?}",
            ins, pc, stack_sz, stack
        );

        let shortstack = short_stack(&dvm);
        println!(
            "ins {}, dvm   pc {:x}, dvm   stack sz {}, dvm   stack {:x?}",
            ins,
            dvm.pc,
            dvm.stack.len(),
            shortstack
        );

        assert_eq!(pc, dvm.pc);
        assert_eq!(stack_sz, dvm.stack.len());
        if dvm.stack.len() > 5 {
            assert_eq!(stack, shortstack);
        } else {
            assert_eq!(stack, dvm.stack);
        }
        let mut top = shortstack.clone();
        top.reverse();
        assert_eq!(dvm.stack_top(5), top);

        println!("checked step {}...", ins);

        ins += 1;
        let stepped = dvm.step();
        if ins < TRACE.len() {
            assert_eq!(stepped, Ok(()));
        } else {
            // The last instruction dereferences an address that nothing maps.
            assert_eq!(stepped, Err(DwarfVmError::AddressFault));
        }
    }
    assert_eq!(dvm.pc, 0x400293);
    assert_eq!(dvm.stack.len(), 7);
    // Behind the program lies nothing that decodes.
    assert_eq!(dvm.step(), Err(DwarfVmError::Decode));
    assert_eq!(dvm.pc, 0x400293);
}

#[test]
fn run_matches_stepping() {
    let core = process_data_file();
    let mut dvm = machine(&core);
    assert_eq!(dvm.run(Some(13)), Ok(13));
    assert_eq!((dvm.pc, dvm.stack.len(), short_stack(&dvm)), (TRACE[13].0, TRACE[13].1, TRACE[13].2.to_vec()));
    assert_eq!(dvm.run(Some(30)), Ok(30));
    assert_eq!((dvm.pc, dvm.stack.len(), short_stack(&dvm)), (TRACE[43].0, TRACE[43].1, TRACE[43].2.to_vec()));
    assert_eq!(dvm.run(None), Err(DwarfVmError::AddressFault));
    assert_eq!(dvm.pc, 0x400293);
}

#[test]
fn decoder_sees_the_bytes_from_the_program_counter() {
    let core = process_data_file();
    let mut dvm = machine(&core);
    assert_eq!(dvm.target_read(START), Ok(&CODE[..]));
    assert_eq!(dvm.fetch(), Ok((1, Op::Lit(0))));
    dvm.pc = START + 10;
    assert_eq!(dvm.target_read(dvm.pc), Ok(&CODE[10..]));
    assert_eq!(dvm.fetch(), Ok((3, Op::Bra(-10))));
    dvm.pc = START + 55;
    assert_eq!(dvm.fetch(), Ok((1, Op::Xor)));
    // An instruction that the patch cuts short.
    dvm.overlay().insert(START + 58, vec![0x0e, 1, 2, 3]);
    dvm.pc = START + 58;
    assert_eq!(dvm.fetch(), Err(DwarfVmError::Decode));
    assert_eq!(dvm.target_read(START + 59), Ok(&[1u8, 2, 3][..]));
    dvm.overlay().clear();
    assert_eq!(dvm.fetch(), Ok((1, Op::Deref)));
    // The end of the code region answers with no bytes at all.
    dvm.pc = START + 59;
    assert_eq!(dvm.target_read(dvm.pc), Ok(&CODE[59..]));
    assert_eq!(dvm.fetch(), Err(DwarfVmError::Decode));
    dvm.pc = START + 60;
    assert_eq!(dvm.fetch(), Err(DwarfVmError::AddressFault));
    // The empty region at address 0 answers for address 0.
    dvm.pc = 0;
    assert_eq!(dvm.fetch(), Err(DwarfVmError::Decode));
}

#[test]
fn patched_code_runs() {
    let core = process_data_file();
    let mut dvm = machine(&core);
    // const1u 5 becomes const1u 2: the loop runs twice.
    dvm.overlay().insert(START + 1, vec![0x08, 0x02]);
    assert_eq!(dvm.run(Some(3 + 8 + 7 + 1)), Ok(19));
    assert_eq!(dvm.pc, START + 14);
    assert_eq!(dvm.stack, vec![3]);
}

#[test]
fn halt_comes_after_the_program_counter_moved() {
    let core = process_data_file();
    let mut dvm = machine(&core);
    // The breakpoint sits on `const1u 5`, which is two bytes long.
    dvm.set_breakpoint(START + 1, Hook::Halt(0));
    assert_eq!(dvm.run(None), Ok(1));
    assert_eq!(dvm.pc, START + 3);
    // The instruction did not run.
    assert_eq!(dvm.stack, vec![0]);
    assert_eq!(dvm.breakpoints().get(&(START + 1)), Some(&Hook::Halt(1)));
    assert_eq!(dvm.breakpoints().len(), 1);

    // Back at the address the hook fires again.
    dvm.pc = START + 1;
    assert_eq!(dvm.step(), Err(DwarfVmError::Breakpoint));
    assert_eq!(dvm.pc, START + 3);
    assert_eq!(dvm.stack, vec![0]);
    assert_eq!(dvm.breakpoints().get(&(START + 1)), Some(&Hook::Halt(2)));
    dvm.pc = START;
    dvm.stack.clear();
    assert_eq!(dvm.run(Some(10)), Ok(1));
    assert_eq!(dvm.breakpoints().get(&(START + 1)), Some(&Hook::Halt(3)));

    // Without the breakpoint the instruction runs.
    assert_eq!(dvm.breakpoints().remove(&(START + 1)), Some(Hook::Halt(3)));
    dvm.pc = START + 1;
    assert_eq!(dvm.step(), Ok(()));
    assert_eq!(dvm.stack, vec![0, 5]);
}

#[test]
fn halt_in_a_loop_fires_on_every_visit() {
    let core = process_data_file();
    let mut dvm = machine(&core);
    // `rot` at the head of the loop body.
    dvm.set_breakpoint(START + 4, Hook::Halt(0));
    let mut visits = 0;
    let mut ran = 0;
    loop {
        let n = dvm.run(Some(100)).unwrap();
        ran += n;
        if n == 100 {
            break;
        }
        visits += 1;
        assert_eq!(dvm.pc, START + 5);
        // Run the instruction that the halt kept back, then go on.
        assert_eq!(dvm.execute(&Op::Rot), Ok(()));
        if visits == 5 {
            assert_eq!(dvm.breakpoints().remove(&(START + 4)), Some(Hook::Halt(5)));
            assert_eq!(dvm.run(Some(7)), Ok(7));
            break;
        }
    }
    assert_eq!(visits, 5);
    assert_eq!(ran, 3 + 4 * 7);
    assert_eq!(dvm.pc, START + 14);
    assert_eq!(dvm.stack, vec![15]);
}

#[test]
fn watching_hook_lets_the_instruction_run() {
    let core = process_data_file();
    let mut dvm = machine(&core);
    dvm.set_breakpoint(START + 3, Hook::Watch(0));
    assert_eq!(dvm.run(Some(43)), Ok(43));
    assert_eq!(dvm.pc, TRACE[43].0);
    assert_eq!(dvm.stack, vec![15]);
    assert_eq!(dvm.breakpoints().get(&(START + 3)), Some(&Hook::Watch(5)));
}

#[test]
fn last_breakpoint_set_wins() {
    let core = process_data_file();
    let mut dvm = machine(&core);
    dvm.set_breakpoint(START, Hook::Halt(0));
    dvm.set_breakpoint(START, Hook::Watch(0));
    assert_eq!(dvm.breakpoints().len(), 1);
    assert_eq!(dvm.step(), Ok(()));
    assert_eq!(dvm.breakpoints().get(&START), Some(&Hook::Watch(1)));
}

#[test]
fn hook_replaces_the_instruction() {
    let core = process_data_file();
    let mut dvm = machine(&core);
    dvm.set_breakpoint(START + 1, Hook::Replace(None, Op::Const2s(-1)));
    assert_eq!(dvm.run(Some(2)), Ok(2));
    // The size is that of the instruction that was decoded.
    assert_eq!(dvm.pc, START + 3);
    assert_eq!(dvm.stack, vec![0, u64::MAX]);
    assert_eq!(
        dvm.breakpoints().get(&(START + 1)),
        Some(&Hook::Replace(Some(Op::Const1u(5)), Op::Const2s(-1)))
    );
}

#[test]
fn hook_that_moves_the_program_counter_is_put_back_there() {
    let core = process_data_file();
    let mut dvm = machine(&core);
    dvm.set_breakpoint(START + 1, Hook::Jump(START + 13));
    assert_eq!(dvm.run(None), Ok(1));
    // The program counter moved on from where the hook put it, by the
    // size of the instruction that was decoded.
    assert_eq!(dvm.pc, START + 15);
    assert_eq!(dvm.stack, vec![0]);
    assert_eq!(dvm.breakpoints().get(&(START + 1)), None);
    assert_eq!(dvm.breakpoints().get(&(START + 13)), Some(&Hook::Jump(START + 13)));
    assert_eq!(dvm.breakpoints().len(), 1);
}

#[test]
fn hook_changes_stack_and_memory() {
    let core = process_data_file();
    let mut dvm = machine(&core);
    dvm.set_breakpoint(START + 3, Hook::Meddle(7));
    assert_eq!(dvm.run(Some(3)), Ok(3));
    // The hook pushed 7, then `dup` ran.
    assert_eq!(dvm.stack, vec![0, 5, 7, 7]);
    assert_eq!(dvm.target_read_u64(0x9000), Ok(0xeeee_eeee_eeee_eeee));
}

#[test]
fn hook_removes_other_breakpoints_but_not_its_own() {
    let core = process_data_file();
    let mut dvm = machine(&core);
    dvm.set_breakpoint(START + 1, Hook::Disarm(START + 3));
    dvm.set_breakpoint(START + 3, Hook::Halt(0));
    assert_eq!(dvm.run(Some(4)), Ok(4));
    assert_eq!(dvm.pc, TRACE[4].0);
    assert_eq!(dvm.breakpoints().len(), 1);
    assert_eq!(dvm.breakpoints().get(&(START + 1)), Some(&Hook::Disarm(START + 3)));
}

#[test]
fn hook_steps_the_machine() {
    let core = process_data_file();
    let mut dvm = machine(&core);
    dvm.set_breakpoint(START, Hook::Nested(None));
    // Inside the hook `lit0` runs; then the program counter moves on by
    // the size of `lit0`, and `lit0` runs again, in place of `const1u 5`.
    assert_eq!(dvm.step(), Ok(()));
    assert_eq!(dvm.pc, START + 2);
    assert_eq!(dvm.stack, vec![0, 0]);
    // The hook is back, at the address that the program counter held
    // when it returned.
    assert_eq!(dvm.breakpoints().len(), 1);
    assert_eq!(dvm.breakpoints().get(&(START + 1)), Some(&Hook::Nested(Some(Ok(())))));
}

#[test]
fn decode_comes_before_the_hook() {
    let core = process_data_file();
    let mut dvm = machine(&core);
    dvm.set_breakpoint(START + 43, Hook::Halt(0));
    dvm.pc = START + 43;
    assert_eq!(dvm.step(), Err(DwarfVmError::Decode));
    assert_eq!(dvm.pc, START + 43);
    assert_eq!(dvm.breakpoints().get(&(START + 43)), Some(&Hook::Halt(0)));
}

#[test]
fn halting_step_is_not_counted() {
    let core = process_data_file();
    let mut dvm = machine(&core);
    dvm.set_breakpoint(START, Hook::Halt(0));
    assert_eq!(dvm.run(None), Ok(0));
    assert_eq!(dvm.pc, START + 1);
    assert_eq!(dvm.stack, Vec::<u64>::new());
    assert_eq!(dvm.run(Some(0)), Ok(0));
    assert_eq!(dvm.pc, START + 1);
    // Run by hand the instruction that the halt kept back.
    assert_eq!(dvm.execute(&Op::Lit(0)), Ok(()));
    dvm.set_breakpoint(START + 13, Hook::Halt(0));
    assert_eq!(dvm.run(None), Ok(41));
    assert_eq!(dvm.pc, START + 14);
    assert_eq!(dvm.stack, vec![15, 0]);
}
