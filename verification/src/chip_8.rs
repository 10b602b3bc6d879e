//! The interpreter around the machine: the key type, the two capability
//! traits the surrounding driver implements, and the step driver that
//! queries them and renders.

use crate::machine::Machine;
use crate::semantics::{
    initial_machine, spec_load, spec_step, Fault, MachineV, StepInput, MEM_SIZE,
};
use vstd::prelude::*;

verus! {

/// A 4-bit key code, 0x0 through 0xF.
#[derive(Clone, Copy, Debug)]
pub struct Key {
    value: u8,
}

impl Key {
    /// The code this key carries.
    pub closed spec fn spec_value(self) -> u8 {
        self.value
    }

    /// Wraps a raw code. Codes above 0xF name no key and are not accepted.
    pub fn new(value: u8) -> (k: Key)
        requires
            value <= 0xF,
        ensures
            k.spec_value() == value,
    {
        Key { value }
    }

    /// The key's 4-bit code.
    pub fn value(&self) -> (r: &u8)
        ensures
            *r == self.spec_value(),
    {
        &self.value
    }
}

/// The keyboard capability: reports whether a given key is held, and which
/// key, if any, is pressed right now. The surrounding driver implements it;
/// nothing is assumed about its answers.
pub trait KeyboardInterface {
    /// Whether `key` is currently held.
    fn is_key_pressed(&self, key: Key) -> bool;

    /// The currently pressed key, if any; ties are broken any stable way.
    fn get_pressed_key(&self) -> Option<Key>;
}

/// The display capability: renders a full 64 x 32 monochrome bitmap, one
/// 64-bit word per row, once per display-mutating instruction.
pub trait DisplayInterface {
    /// Renders the bitmap, which holds exactly 32 rows.
    fn draw(&mut self, bitmap: &[u64])
        requires
            bitmap@.len() == 32,
    ;
}

/// Relies on rand::random: one uniformly distributed random byte. Nothing is
/// assumed about the value.
#[verifier::external_body]
fn random_byte() -> u8 {
    rand::random::<u8>()
}

/// The interpreter: the machine state plus the two capabilities it drives.
pub struct Chip8<K, D> where K: KeyboardInterface, D: DisplayInterface {
    /// The machine state proper.
    pub machine: Machine,
    /// The keyboard capability.
    pub keyboard: K,
    /// The display capability.
    pub display: D,
}

impl<K, D> Chip8<K, D> where K: KeyboardInterface, D: DisplayInterface {
    /// A new interpreter around the two capabilities: a fresh machine, with
    /// the blank display rendered once.
    pub fn new(keyboard: K, display: D) -> (c: Chip8<K, D>)
        ensures
            c.machine@ == initial_machine(),
            c.machine@.wf(),
    {
        let machine = Machine::new();
        let mut c = Chip8 { machine, keyboard, display };
        let bitmap = c.machine.vram_slice();
        c.display.draw(bitmap);
        c
    }

    /// Loads a program image into memory starting at 0x200. An image too
    /// large for the space up to the end of memory is rejected whole.
    pub fn load(&mut self, rom: &[u8]) -> (r: Result<(), Fault>)
        requires
            old(self).machine@.wf(),
        ensures
            final(self).machine@.wf(),
            match r {
                Ok(()) => rom@.len() <= 0xE00 && final(self).machine@ == (MachineV {
                    ram: spec_load(old(self).machine@.ram, rom@),
                    ..old(self).machine@
                }),
                Err(f) => f == Fault::ProgramTooLarge && rom@.len() > 0xE00
                    && final(self).machine@ == old(self).machine@,
            },
    {
        self.machine.load(rom)
    }

    /// Queries the capabilities for exactly what the next instruction needs:
    /// the held state of the key a key-skip names, the pressed key for a key
    /// wait, or one random byte.
    fn gather_input(&self) -> StepInput
        requires
            self.machine@.wf(),
    {
        let mut key_pressed = false;
        let mut pressed_key: Option<u8> = None;
        let mut random: u8 = 0;
        if self.machine.pc() < MEM_SIZE - 1 {
            let op = self.machine.fetch_op();
            let top = op / 0x1000;
            let x = ((op / 0x100) % 0x10) as usize;
            let kk = (op % 0x100) as u8;
            if top == 0xE {
                let vx = self.machine.reg(x);
                if vx <= 0xF {
                    key_pressed = self.keyboard.is_key_pressed(Key::new(vx));
                }
            } else if top == 0xF && kk == 0x0A {
                pressed_key = match self.keyboard.get_pressed_key() {
                    Some(key) => Some(*key.value()),
                    None => None,
                };
            } else if top == 0xC {
                random = random_byte();
            }
        }
        StepInput { key_pressed, pressed_key, random }
    }

    /// Advances the machine by exactly one instruction, querying the
    /// keyboard and randomness only as that instruction requires, and
    /// renders after a display-mutating one. Whatever the capabilities
    /// answered, the machine moves exactly as the step semantics say for the
    /// input they produced; a fault leaves it unchanged.
    pub fn execute(&mut self) -> (r: Result<(), Fault>)
        requires
            old(self).machine@.wf(),
        ensures
            final(self).machine@.wf(),
            match r {
                Ok(()) => exists|inp: StepInput| #[trigger] spec_step(old(self).machine@, inp)
                    matches Ok(p) && final(self).machine@ == p.0,
                Err(f) => exists|inp: StepInput| #[trigger] spec_step(old(self).machine@, inp)
                    == Err::<(MachineV, bool), Fault>(f) && final(self).machine@ == old(
                    self,
                ).machine@,
            },
    {
        let input = self.gather_input();
        match self.machine.step(&input) {
            Ok(redraw) => {
                if redraw {
                    let bitmap = self.machine.vram_slice();
                    self.display.draw(bitmap);
                }
                Ok(())
            },
            Err(f) => Err(f),
        }
    }
}

} // verus!
