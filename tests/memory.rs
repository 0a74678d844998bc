use std::cell::Cell;
use std::mem;

#[test]
fn getmem() {
    const SOURCE: &[u8] = b"testing one two three";
    let mut dest = [0; 9];
    gdbserver::getmem(3, &mut dest, |addr| -> Result<usize, ()> {
        let mut bytes = [0; mem::size_of::<usize>()];
        bytes.copy_from_slice(&SOURCE[addr..addr + mem::size_of::<usize>()]);
        Ok(usize::from_ne_bytes(bytes))
    })
    .unwrap();
    assert_eq!(&dest, b"ting one ");
}

#[test]
fn setmem() {
    let source = Cell::new(*b"testing one two three");
    let dest = b"XXXXXXXXX";
    gdbserver::setmem(
        dest,
        3,
        |addr| -> Result<usize, ()> {
            let mut bytes = [0; mem::size_of::<usize>()];
            bytes.copy_from_slice(&source.get()[addr..addr + mem::size_of::<usize>()]);
            Ok(usize::from_ne_bytes(bytes))
        },
        |addr, word| -> Result<(), ()> {
            let mut slice = source.get();
            slice[addr..addr + mem::size_of::<usize>()].copy_from_slice(&word.to_ne_bytes());
            source.set(slice);
            Ok(())
        },
    )
    .unwrap();
    assert_eq!(&source.get(), b"tesXXXXXXXXXtwo three");
}

fn read_word(memory: &[u8], addr: usize) -> usize {
    let mut bytes = [0; 8];
    bytes.copy_from_slice(&memory[addr..addr + 8]);
    usize::from_ne_bytes(bytes)
}

#[test]
fn getmem_returns_length_and_whole_words() {
    let memory: Vec<u8> = (0u8..64).collect();
    let mut dest = [0u8; 16];
    let n = gdbserver::getmem(8, &mut dest, |addr| -> Result<usize, ()> { Ok(read_word(&memory, addr)) }).unwrap();
    assert_eq!(n, 16);
    assert_eq!(dest.to_vec(), (8u8..24).collect::<Vec<u8>>());
}

#[test]
fn getmem_empty_reads_nothing() {
    let calls = Cell::new(0);
    let mut dest: [u8; 0] = [];
    let n = gdbserver::getmem(0, &mut dest, |_| -> Result<usize, ()> {
        calls.set(calls.get() + 1);
        Ok(0)
    })
    .unwrap();
    assert_eq!(n, 0);
    assert_eq!(calls.get(), 0);
}

#[test]
fn getmem_passes_error_on() {
    let mut dest = [0u8; 12];
    let r = gdbserver::getmem(0, &mut dest, |addr| -> Result<usize, u32> {
        if addr >= 8 {
            Err(7)
        } else {
            Ok(0)
        }
    });
    assert_eq!(r, Err(7));
}

#[test]
fn setmem_whole_words_keeps_following_bytes() {
    let memory = Cell::new([0xAAu8; 32]);
    let src = [1u8, 2, 3, 4, 5, 6, 7, 8];
    gdbserver::setmem(
        &src,
        8,
        |addr| -> Result<usize, ()> { Ok(read_word(&memory.get(), addr)) },
        |addr, word| -> Result<(), ()> {
            let mut m = memory.get();
            m[addr..addr + 8].copy_from_slice(&word.to_ne_bytes());
            memory.set(m);
            Ok(())
        },
    )
    .unwrap();
    let m = memory.get();
    assert_eq!(&m[8..16], &src);
    assert!(m[..8].iter().all(|&b| b == 0xAA));
    assert!(m[16..].iter().all(|&b| b == 0xAA));
}

#[test]
fn setmem_passes_error_on() {
    let r = gdbserver::setmem(
        b"abc",
        0,
        |_| -> Result<usize, &'static str> { Err("peek failed") },
        |_, _| -> Result<(), &'static str> { Ok(()) },
    );
    assert_eq!(r, Err("peek failed"));
}

#[test]
fn write_then_read_back() {
    let memory = Cell::new([0x55u8; 48]);
    let data = b"hello, tracee";
    gdbserver::setmem(
        data,
        5,
        |addr| -> Result<usize, ()> { Ok(read_word(&memory.get(), addr)) },
        |addr, word| -> Result<(), ()> {
            let mut m = memory.get();
            m[addr..addr + 8].copy_from_slice(&word.to_ne_bytes());
            memory.set(m);
            Ok(())
        },
    )
    .unwrap();
    let mut back = [0u8; 13];
    gdbserver::getmem(5, &mut back, |addr| -> Result<usize, ()> { Ok(read_word(&memory.get(), addr)) }).unwrap();
    assert_eq!(&back, data);
    let m = memory.get();
    assert!(m[..5].iter().all(|&b| b == 0x55));
    assert!(m[18..].iter().all(|&b| b == 0x55));
}

#[test]
fn read_then_write_back_keeps_memory() {
    let start: [u8; 40] = core::array::from_fn(|i| (i * 7) as u8);
    let memory = Cell::new(start);
    let mut buf = [0u8; 11];
    gdbserver::getmem(6, &mut buf, |addr| -> Result<usize, ()> { Ok(read_word(&memory.get(), addr)) }).unwrap();
    gdbserver::setmem(
        &buf,
        6,
        |addr| -> Result<usize, ()> { Ok(read_word(&memory.get(), addr)) },
        |addr, word| -> Result<(), ()> {
            let mut m = memory.get();
            m[addr..addr + 8].copy_from_slice(&word.to_ne_bytes());
            memory.set(m);
            Ok(())
        },
    )
    .unwrap();
    assert_eq!(memory.get(), start);
}

#[test]
fn getmem_single_instruction_byte() {
    let code: Vec<u8> = vec![0x48, 0xc7, 0xc0, 0x2a, 0, 0, 0, 0x0f, 0x05, 0x90, 0x90, 0x90, 0x90, 0x90, 0x90, 0x90];
    let mut byte = [0u8; 1];
    let n = gdbserver::getmem(0, &mut byte, |addr| -> Result<usize, ()> { Ok(read_word(&code, addr)) }).unwrap();
    assert_eq!(n, 1);
    assert_eq!(byte, [0x48]);
}
