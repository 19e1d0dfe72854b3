//! Setting up a machine before its program runs: loading the program
//! image, and handing the program its input.
//!
//! An image is a sequence of bytes in which every four stand for one word,
//! the most significant byte first. Its words are stored one after the
//! other from the load address on; addresses wrap round at 2^32.

use crate::args::{FrontendModel, InputFrontend};
use crate::bus::BusState;
use crate::cpu::{CpuState, Reg, CPU};
use crate::word::{add32, from_signed, word_of};
use vstd::prelude::*;

verus! {

/// The distance from the load address at which the array of the array
/// frontend starts.
pub const ARRAY_OFFSET: u32 = 0x20;

/// The word that four bytes stand for, the most significant byte first.
pub open spec fn be_word(b0: u8, b1: u8, b2: u8, b3: u8) -> u32 {
    ((b0 as u32) << 24) | ((b1 as u32) << 16) | ((b2 as u32) << 8) | (b3 as u32)
}

/// The word that four bytes stand for, the most significant byte first.
pub fn word_from_bytes(b0: u8, b1: u8, b2: u8, b3: u8) -> (word: u32)
    ensures
        word == be_word(b0, b1, b2, b3),
        word == b0 * 0x100_0000 + b1 * 0x1_0000 + b2 * 0x100 + b3,
{
    let word = ((b0 as u32) << 24) | ((b1 as u32) << 16) | ((b2 as u32) << 8) | (b3 as u32);
    assert(word == b0 * 0x100_0000 + b1 * 0x1_0000 + b2 * 0x100 + b3) by (bit_vector)
        requires
            word == ((b0 as u32) << 24) | ((b1 as u32) << 16) | ((b2 as u32) << 8) | (b3 as u32),
    ;
    word
}

/// The word number `k` of an image.
pub open spec fn image_word(image: Seq<u8>, k: int) -> u32 {
    be_word(image[4 * k], image[4 * k + 1], image[4 * k + 2], image[4 * k + 3])
}

/// The bus after the first `count` of the words `words` were stored one
/// after the other from `base` on.
pub open spec fn after_words(bus: BusState, base: u32, words: Seq<u32>, count: int) -> BusState
    decreases count,
{
    if count <= 0 {
        bus
    } else {
        after_words(bus, base, words, count - 1).after_store(
            word_of(base + 4 * (count - 1)),
            words[count - 1],
        )
    }
}

/// The words of an image whose length is a multiple of four.
pub open spec fn image_words(image: Seq<u8>) -> Seq<u32> {
    Seq::new((image.len() / 4) as nat, |k: int| image_word(image, k))
}

/// The words that stand for the numbers of an array.
pub open spec fn array_words(array: Seq<i32>) -> Seq<u32> {
    Seq::new(array.len(), |k: int| word_of(array[k] as int))
}

/// The state that the frontend `frontend` sets up from the state `cpu`,
/// for a program loaded at `load_address`.
pub open spec fn with_frontend(cpu: CpuState, frontend: FrontendModel, load_address: u32) -> CpuState {
    match frontend {
        FrontendModel::NoArgs => cpu,
        FrontendModel::TwoInts { int1, int2 } => cpu.with_reg(1, word_of(int1 as int)).with_reg(
            2,
            word_of(int2 as int),
        ),
        FrontendModel::Array { array } => {
            let base = word_of(ARRAY_OFFSET + load_address);
            CpuState {
                bus: after_words(cpu.bus, base, array_words(array), array.len() as int),
                ..cpu
            }.with_reg(1, base).with_reg(2, word_of(array.len() as int))
        },
    }
}

/// Loads a program image at `load_address`. Fails with the message `File
/// is not word aligned`, and stores nothing, where the length of the
/// image is no multiple of four.
pub fn load_image(cpu: &mut CPU, image: &[u8], load_address: u32) -> (res: Result<
    (),
    &'static str,
>)
    ensures
        match res {
            Ok(_) => image@.len() % 4 == 0 && final(cpu)@ == (CpuState {
                bus: after_words(
                    old(cpu)@.bus,
                    load_address,
                    image_words(image@),
                    image@.len() as int / 4,
                ),
                ..old(cpu)@
            }),
            Err(msg) => image@.len() % 4 != 0 && final(cpu)@ == old(cpu)@ && msg@
                == "File is not word aligned"@,
        },
{
    if image.len() % 4 != 0 {
        return Err("File is not word aligned");
    }
    let count = image.len() / 4;
    let ghost words = image_words(image@);
    let mut addr = load_address;
    let mut k: usize = 0;
    while k < count
        invariant
            k <= count,
            count == image@.len() / 4,
            image@.len() % 4 == 0,
            image@.len() <= usize::MAX,
            words == image_words(image@),
            addr == word_of(load_address + 4 * k),
            cpu@ == (CpuState {
                bus: after_words(old(cpu)@.bus, load_address, words, k as int),
                ..old(cpu)@
            }),
        decreases count - k,
    {
        assert(4 * k + 3 < image@.len());
        let at = 4 * k;
        let word = word_from_bytes(image[at], image[at + 1], image[at + 2], image[at + 3]);
        cpu.store(addr, word);
        addr = add32(addr, 4);
        k = k + 1;
    }
    Ok(())
}

/// Hands the program its input: two numbers in registers 1 and 2, or an
/// array in memory at `ARRAY_OFFSET` from the load address, with its
/// address in register 1 and its length in register 2.
pub fn apply_frontend(cpu: &mut CPU, frontend: &InputFrontend, load_address: u32)
    ensures
        final(cpu)@ == with_frontend(old(cpu)@, frontend@, load_address),
{
    proof {
        cpu.lemma_wf();
    }
    match frontend {
        InputFrontend::NoArgs => {},
        InputFrontend::TwoInts { int1, int2 } => {
            let _ = cpu.set_reg(Reg::Reg(1), from_signed(*int1));
            let _ = cpu.set_reg(Reg::Reg(2), from_signed(*int2));
        },
        InputFrontend::Array { array } => {
            let base = add32(ARRAY_OFFSET, load_address);
            let ghost words = array_words(array@);
            let mut addr = base;
            let mut k: usize = 0;
            while k < array.len()
                invariant
                    k <= array.len(),
                    words == array_words(array@),
                    addr == word_of(base + 4 * k),
                    cpu@ == (CpuState {
                        bus: after_words(old(cpu)@.bus, base, words, k as int),
                        ..old(cpu)@
                    }),
                decreases array.len() - k,
            {
                cpu.store(addr, from_signed(array[k]));
                addr = add32(addr, 4);
                k = k + 1;
            }
            let len = array.len();
            let len_word = (len & 0xffff_ffff) as u32;
            assert(len_word == word_of(len as int)) by (bit_vector)
                requires
                    len_word == (len & 0xffff_ffff) as u32,
            ;
            let _ = cpu.set_reg(Reg::Reg(1), base);
            let _ = cpu.set_reg(Reg::Reg(2), len_word);
        },
    }
}

} // verus!
