//! ARM7TDMI banked register file. `r` is the visible window; mode switches
//! save and restore the banked registers.
use vstd::prelude::*;
use crate::gba::psr::{Mode, Psr, mode_bits, mode_of, valid_mode_bits, lemma_mode_bits_round_trip};
use crate::state::{Reader, StateError, Writer};
use vstd::bytes::{spec_u32_from_le_bytes, spec_u32_to_le_bytes, lemma_auto_spec_u32_to_from_le_bytes};

verus! {

pub struct RegistersView {
    pub r: Seq<u32>,
    pub bank_usr: Seq<u32>,
    pub bank_fiq: Seq<u32>,
    pub bank_irq: Seq<u32>,
    pub bank_svc: Seq<u32>,
    pub bank_abt: Seq<u32>,
    pub bank_und: Seq<u32>,
    pub cpsr: Psr,
    pub spsr: Seq<Psr>,
}

/// The register file with the visible r8-r14 stored into `mode`'s banks.
pub open spec fn saved(v: RegistersView, mode: Mode) -> RegistersView {
    if mode == Mode::Fiq {
        RegistersView { bank_fiq: v.r.subrange(8, 15), ..v }
    } else {
        let usr = v.r.subrange(8, 13) + v.bank_usr.subrange(5, 7);
        let hi = v.r.subrange(13, 15);
        match mode {
            Mode::Irq => RegistersView { bank_usr: usr, bank_irq: hi, ..v },
            Mode::Supervisor => RegistersView { bank_usr: usr, bank_svc: hi, ..v },
            Mode::Abort => RegistersView { bank_usr: usr, bank_abt: hi, ..v },
            Mode::Undefined => RegistersView { bank_usr: usr, bank_und: hi, ..v },
            _ => RegistersView { bank_usr: v.r.subrange(8, 15), ..v },
        }
    }
}

/// r13/r14 of `mode`'s bank.
pub open spec fn banked_hi(v: RegistersView, mode: Mode) -> Seq<u32> {
    match mode {
        Mode::Irq => v.bank_irq,
        Mode::Supervisor => v.bank_svc,
        Mode::Abort => v.bank_abt,
        Mode::Undefined => v.bank_und,
        _ => v.bank_usr.subrange(5, 7),
    }
}

/// The register file with r8-r14 loaded from `mode`'s banks.
pub open spec fn loaded(v: RegistersView, mode: Mode) -> RegistersView {
    if mode == Mode::Fiq {
        RegistersView { r: v.r.subrange(0, 8) + v.bank_fiq + v.r.subrange(15, 16), ..v }
    } else {
        RegistersView {
            r: v.r.subrange(0, 8) + v.bank_usr.subrange(0, 5) + banked_hi(v, mode) + v.r.subrange(
                15,
                16,
            ),
            ..v
        }
    }
}

/// The register file after switching to `new`.
pub open spec fn switched(v: RegistersView, new: Mode) -> RegistersView {
    let old = mode_of(v.cpsr.0);
    let w = if old != new { loaded(saved(v, old), new) } else { v };
    RegistersView { cpsr: Psr((v.cpsr.0 & !0x1Fu32) | mode_bits(new)), ..w }
}

/// The SPSR slot of a mode; User and System have none.
pub open spec fn spsr_slot(mode: Mode) -> Option<int> {
    match mode {
        Mode::Fiq => Some(0),
        Mode::Irq => Some(1),
        Mode::Supervisor => Some(2),
        Mode::Abort => Some(3),
        Mode::Undefined => Some(4),
        _ => None,
    }
}

/// Lengths every register file keeps, and a valid current mode.
pub open spec fn regs_wf(v: RegistersView) -> bool {
    &&& v.r.len() == 16
    &&& v.bank_usr.len() == 7
    &&& v.bank_fiq.len() == 7
    &&& v.bank_irq.len() == 2
    &&& v.bank_svc.len() == 2
    &&& v.bank_abt.len() == 2
    &&& v.bank_und.len() == 2
    &&& v.spsr.len() == 5
    &&& valid_mode_bits(v.cpsr.0)
}

/// Where user-bank register `i` lives when viewed from the current mode:
/// None when it is the visible `r[i]`, Some(j) for `bank_usr[j]`.
pub open spec fn user_slot(v: RegistersView, i: int) -> Option<int> {
    let m = mode_of(v.cpsr.0);
    if m == Mode::User || m == Mode::System {
        None
    } else if m == Mode::Fiq && 8 <= i < 15 {
        Some(i - 8)
    } else if i == 13 || i == 14 {
        Some(i - 8)
    } else {
        None
    }
}

pub struct Registers {
    pub r: [u32; 16],
    pub bank_usr: [u32; 7],
    pub bank_fiq: [u32; 7],
    pub bank_irq: [u32; 2],
    pub bank_svc: [u32; 2],
    pub bank_abt: [u32; 2],
    pub bank_und: [u32; 2],
    pub cpsr: Psr,
    pub spsr: [Psr; 5],
}

impl View for Registers {
    type V = RegistersView;

    open spec fn view(&self) -> RegistersView {
        RegistersView {
            r: self.r@,
            bank_usr: self.bank_usr@,
            bank_fiq: self.bank_fiq@,
            bank_irq: self.bank_irq@,
            bank_svc: self.bank_svc@,
            bank_abt: self.bank_abt@,
            bank_und: self.bank_und@,
            cpsr: self.cpsr,
            spsr: self.spsr@,
        }
    }
}

/// The register file as the BIOS leaves it for the cartridge.
pub open spec fn post_bios_regs() -> RegistersView {
    RegistersView {
        r: Seq::new(16, |i: int| if i == 13 { 0x0300_7F00u32 } else { 0u32 }),
        bank_usr: Seq::new(7, |_i: int| 0u32),
        bank_fiq: Seq::new(7, |_i: int| 0u32),
        bank_irq: seq![0x0300_7FA0u32, 0u32],
        bank_svc: seq![0x0300_7FE0u32, 0u32],
        bank_abt: seq![0u32, 0u32],
        bank_und: seq![0u32, 0u32],
        cpsr: Psr(0x1F),
        spsr: Seq::new(5, |_i: int| Psr(0)),
    }
}

impl Registers {
    /// State after the BIOS hands off to the cartridge: System mode, ARM
    /// state, stacks preset.
    pub fn new_post_bios() -> (regs: Self)
        ensures
            regs_wf(regs@),
            regs@ == post_bios_regs(),
            regs@.r == Seq::new(16, |i: int| if i == 13 { 0x0300_7F00u32 } else { 0u32 }),
            regs@.bank_usr == Seq::new(7, |_i: int| 0u32),
            regs@.bank_fiq == Seq::new(7, |_i: int| 0u32),
            regs@.bank_irq == seq![0x0300_7FA0u32, 0u32],
            regs@.bank_svc == seq![0x0300_7FE0u32, 0u32],
            regs@.bank_abt == seq![0u32, 0u32],
            regs@.bank_und == seq![0u32, 0u32],
            regs@.cpsr == Psr(0x1F),
            regs@.spsr == Seq::new(5, |_i: int| Psr(0)),
    {
        let mut regs = Registers {
            r: [0; 16],
            bank_usr: [0; 7],
            bank_fiq: [0; 7],
            bank_irq: [0x0300_7FA0, 0],
            bank_svc: [0x0300_7FE0, 0],
            bank_abt: [0; 2],
            bank_und: [0; 2],
            cpsr: Psr(0x1F),
            spsr: [Psr(0); 5],
        };
        regs.r[13] = 0x0300_7F00;
        assert(0x1Fu32 & 0x1F == 0x1F) by (bit_vector);
        assert(regs@.r =~= Seq::new(16, |i: int| if i == 13 { 0x0300_7F00u32 } else { 0u32 }));
        assert(regs@.bank_usr =~= Seq::new(7, |_i: int| 0u32));
        assert(regs@.bank_fiq =~= Seq::new(7, |_i: int| 0u32));
        assert(regs@.bank_irq =~= seq![0x0300_7FA0u32, 0u32]);
        assert(regs@.bank_svc =~= seq![0x0300_7FE0u32, 0u32]);
        assert(regs@.bank_abt =~= seq![0u32, 0u32]);
        assert(regs@.bank_und =~= seq![0u32, 0u32]);
        assert(regs@.spsr =~= Seq::new(5, |_i: int| Psr(0)));
        regs
    }

    pub fn get(&self, i: usize) -> (v: u32)
        requires
            i < 16,
        ensures
            v == self@.r[i as int],
    {
        self.r[i]
    }

    pub fn set(&mut self, i: usize, v: u32)
        requires
            i < 16,
        ensures
            final(self)@ == (RegistersView { r: old(self)@.r.update(i as int, v), ..old(self)@ }),
    {
        self.r[i] = v;
    }

    /// Switches mode, banking r8-r14 as the hardware does.
    pub fn switch_mode(&mut self, new: Mode)
        requires
            regs_wf(old(self)@),
        ensures
            regs_wf(final(self)@),
            final(self)@ == switched(old(self)@, new),
    {
        let old_mode = self.cpsr.mode();
        if old_mode != new {
            self.save_bank(old_mode);
            self.load_bank(new);
        }
        let nb = new.bits();
        proof { lemma_mode_bits_round_trip(new, self.cpsr.0); }
        self.cpsr.0 = (self.cpsr.0 & !0x1F) | nb;
    }

    /// Replaces the whole CPSR, switching banks to match its mode.
    pub fn write_cpsr(&mut self, new: Psr)
        requires
            regs_wf(old(self)@),
            valid_mode_bits(new.0),
        ensures
            regs_wf(final(self)@),
            final(self)@ == (RegistersView { cpsr: new, ..switched(old(self)@, mode_of(new.0)) }),
    {
        let m = new.mode();
        self.switch_mode(m);
        self.cpsr = new;
    }

    fn save_bank(&mut self, mode: Mode)
        requires
            regs_wf(old(self)@),
        ensures
            final(self)@ == saved(old(self)@, mode),
    {
        if mode == Mode::Fiq {
            let mut i: usize = 0;
            while i < 7
                invariant
                    i <= 7,
                    regs_wf(old(self)@),
                    self@ == (RegistersView { bank_fiq: self@.bank_fiq, ..old(self)@ }),
                    self@.bank_fiq.len() == 7,
                    forall|j: int| 0 <= j < i ==> self@.bank_fiq[j] == old(self)@.r[8 + j],
                decreases 7 - i,
            {
                self.bank_fiq[i] = self.r[8 + i];
                i = i + 1;
            }
            assert(self@.bank_fiq =~= old(self)@.r.subrange(8, 15));
        } else {
            let mut i: usize = 0;
            while i < 5
                invariant
                    i <= 5,
                    regs_wf(old(self)@),
                    self@ == (RegistersView { bank_usr: self@.bank_usr, ..old(self)@ }),
                    self@.bank_usr.len() == 7,
                    forall|j: int| 0 <= j < i ==> self@.bank_usr[j] == old(self)@.r[8 + j],
                    forall|j: int| i <= j < 7 ==> self@.bank_usr[j] == old(self)@.bank_usr[j],
                decreases 5 - i,
            {
                self.bank_usr[i] = self.r[8 + i];
                i = i + 1;
            }
            let lo = self.r[13];
            let hi = self.r[14];
            match mode {
                Mode::Irq => {
                    self.bank_irq = [lo, hi];
                },
                Mode::Supervisor => {
                    self.bank_svc = [lo, hi];
                },
                Mode::Abort => {
                    self.bank_abt = [lo, hi];
                },
                Mode::Undefined => {
                    self.bank_und = [lo, hi];
                },
                _ => {
                    self.bank_usr[5] = lo;
                    self.bank_usr[6] = hi;
                },
            }
            let ghost v = old(self)@;
            assert(self@.bank_usr =~= saved(v, mode).bank_usr);
            assert(self@.bank_irq =~= saved(v, mode).bank_irq);
            assert(self@.bank_svc =~= saved(v, mode).bank_svc);
            assert(self@.bank_abt =~= saved(v, mode).bank_abt);
            assert(self@.bank_und =~= saved(v, mode).bank_und);
        }
    }

    fn load_bank(&mut self, mode: Mode)
        requires
            regs_wf(old(self)@),
        ensures
            final(self)@ == loaded(old(self)@, mode),
    {
        if mode == Mode::Fiq {
            let mut i: usize = 0;
            while i < 7
                invariant
                    i <= 7,
                    regs_wf(old(self)@),
                    self@ == (RegistersView { r: self@.r, ..old(self)@ }),
                    self@.r.len() == 16,
                    forall|j: int| 0 <= j < 8 ==> self@.r[j] == old(self)@.r[j],
                    forall|j: int| 0 <= j < i ==> self@.r[8 + j] == old(self)@.bank_fiq[j],
                    forall|j: int| 8 + i <= j < 16 ==> self@.r[j] == old(self)@.r[j],
                decreases 7 - i,
            {
                self.r[8 + i] = self.bank_fiq[i];
                i = i + 1;
            }
            assert(self@.r =~= loaded(old(self)@, mode).r);
        } else {
            let mut i: usize = 0;
            while i < 5
                invariant
                    i <= 5,
                    regs_wf(old(self)@),
                    self@ == (RegistersView { r: self@.r, ..old(self)@ }),
                    self@.r.len() == 16,
                    forall|j: int| 0 <= j < 8 ==> self@.r[j] == old(self)@.r[j],
                    forall|j: int| 0 <= j < i ==> self@.r[8 + j] == old(self)@.bank_usr[j],
                    forall|j: int| 8 + i <= j < 16 ==> self@.r[j] == old(self)@.r[j],
                decreases 5 - i,
            {
                self.r[8 + i] = self.bank_usr[i];
                i = i + 1;
            }
            let (lo, hi) = match mode {
                Mode::Irq => (self.bank_irq[0], self.bank_irq[1]),
                Mode::Supervisor => (self.bank_svc[0], self.bank_svc[1]),
                Mode::Abort => (self.bank_abt[0], self.bank_abt[1]),
                Mode::Undefined => (self.bank_und[0], self.bank_und[1]),
                _ => (self.bank_usr[5], self.bank_usr[6]),
            };
            self.r[13] = lo;
            self.r[14] = hi;
            assert(self@.r =~= loaded(old(self)@, mode).r);
        }
    }

    fn spsr_index(mode: Mode) -> (r: Option<usize>)
        ensures
            match spsr_slot(mode) {
                Some(i) => r == Some(i as usize),
                None => r is None,
            },
    {
        match mode {
            Mode::Fiq => Some(0),
            Mode::Irq => Some(1),
            Mode::Supervisor => Some(2),
            Mode::Abort => Some(3),
            Mode::Undefined => Some(4),
            _ => None,
        }
    }

    /// The current mode's SPSR; User and System have none, and read the CPSR.
    pub fn spsr(&self) -> (p: Psr)
        requires
            regs_wf(self@),
        ensures
            p == match spsr_slot(mode_of(self@.cpsr.0)) {
                Some(i) => self@.spsr[i],
                None => self@.cpsr,
            },
    {
        match Self::spsr_index(self.cpsr.mode()) {
            Some(i) => self.spsr[i],
            None => self.cpsr,
        }
    }

    /// Writes the current mode's SPSR; ignored in User and System.
    pub fn set_spsr(&mut self, v: Psr)
        requires
            regs_wf(old(self)@),
        ensures
            final(self)@ == match spsr_slot(mode_of(old(self)@.cpsr.0)) {
                Some(i) => RegistersView { spsr: old(self)@.spsr.update(i, v), ..old(self)@ },
                None => old(self)@,
            },
    {
        if let Some(i) = Self::spsr_index(self.cpsr.mode()) {
            self.spsr[i] = v;
        }
    }

    /// User-bank register access from any mode (LDM/STM with the S bit).
    pub fn get_user(&self, i: usize) -> (v: u32)
        requires
            regs_wf(self@),
            i < 16,
        ensures
            v == match user_slot(self@, i as int) {
                Some(j) => self@.bank_usr[j],
                None => self@.r[i as int],
            },
    {
        match self.cpsr.mode() {
            Mode::User | Mode::System => self.r[i],
            Mode::Fiq if 8 <= i && i < 15 => self.bank_usr[i - 8],
            _ => if i == 13 || i == 14 {
                self.bank_usr[i - 8]
            } else {
                self.r[i]
            },
        }
    }

    pub fn set_user(&mut self, i: usize, v: u32)
        requires
            regs_wf(old(self)@),
            i < 16,
        ensures
            final(self)@ == match user_slot(old(self)@, i as int) {
                Some(j) => RegistersView { bank_usr: old(self)@.bank_usr.update(j, v), ..old(self)@ },
                None => RegistersView { r: old(self)@.r.update(i as int, v), ..old(self)@ },
            },
    {
        match self.cpsr.mode() {
            Mode::User | Mode::System => {
                self.r[i] = v;
            },
            Mode::Fiq if 8 <= i && i < 15 => {
                self.bank_usr[i - 8] = v;
            },
            _ => {
                if i == 13 || i == 14 {
                    self.bank_usr[i - 8] = v;
                } else {
                    self.r[i] = v;
                }
            },
        }
    }
}

// ------------------------------------------------------------------ save states

/// The register file as the 44 words of its save-state record: r0-r15, the
/// user, FIQ, IRQ, supervisor, abort and undefined banks, the CPSR, then the
/// five SPSRs.
pub open spec fn regs_words(v: RegistersView) -> Seq<u32> {
    v.r + v.bank_usr + v.bank_fiq + v.bank_irq + v.bank_svc + v.bank_abt + v.bank_und + seq![v.cpsr.0]
        + v.spsr.map_values(|p: Psr| p.0)
}

/// Words as little-endian bytes.
pub open spec fn words_bytes(ws: Seq<u32>) -> Seq<u8>
    decreases ws.len(),
{
    if ws.len() == 0 {
        Seq::empty()
    } else {
        spec_u32_to_le_bytes(ws[0]) + words_bytes(ws.drop_first())
    }
}

/// The first `n` little-endian words of `s`.
pub open spec fn bytes_words(s: Seq<u8>, n: nat) -> Seq<u32>
    decreases n,
{
    if n == 0 {
        Seq::empty()
    } else {
        seq![spec_u32_from_le_bytes(s.take(4))] + bytes_words(s.skip(4), (n - 1) as nat)
    }
}

proof fn lemma_bytes_words_step(s: Seq<u8>, n: nat)
    requires
        s.len() >= 4 * (n + 1),
    ensures
        bytes_words(s, n + 1) == bytes_words(s, n).push(spec_u32_from_le_bytes(s.skip(4 * (n as int)).take(4))),
        s.skip(4 * (n as int)).skip(4) == s.skip(4 * (n as int + 1)),
    decreases n,
{
    assert(s.skip(4 * (n as int)).skip(4) =~= s.skip(4 * (n as int + 1)));
    if n > 0 {
        lemma_bytes_words_step(s.skip(4), (n - 1) as nat);
        assert(s.skip(4).skip(4 * (n as int - 1)) =~= s.skip(4 * (n as int)));
        assert(bytes_words(s, n + 1) =~= bytes_words(s, n).push(spec_u32_from_le_bytes(s.skip(4 * (n as int)).take(4))));
    } else {
        assert(s.skip(0) =~= s);
        assert(bytes_words(s.skip(4), 0) =~= Seq::<u32>::empty());
        assert(bytes_words(s, 1) =~= bytes_words(s, 0).push(spec_u32_from_le_bytes(s.take(4))));
    }
}

/// The register file a 44-word record restores.
pub open spec fn regs_from_words(ws: Seq<u32>) -> RegistersView {
    RegistersView {
        r: ws.subrange(0, 16),
        bank_usr: ws.subrange(16, 23),
        bank_fiq: ws.subrange(23, 30),
        bank_irq: ws.subrange(30, 32),
        bank_svc: ws.subrange(32, 34),
        bank_abt: ws.subrange(34, 36),
        bank_und: ws.subrange(36, 38),
        cpsr: Psr(ws[38]),
        spsr: ws.subrange(39, 44).map_values(|w: u32| Psr(w)),
    }
}

proof fn lemma_words_bytes_append(a: Seq<u32>, b: Seq<u32>)
    ensures
        words_bytes(a + b) == words_bytes(a) + words_bytes(b),
    decreases a.len(),
{
    if a.len() == 0 {
        assert(a + b =~= b);
    } else {
        assert((a + b).drop_first() =~= a.drop_first() + b);
        lemma_words_bytes_append(a.drop_first(), b);
        assert(words_bytes(a + b) =~= words_bytes(a) + words_bytes(b));
    }
}

proof fn lemma_words_bytes_len(ws: Seq<u32>)
    ensures
        words_bytes(ws).len() == 4 * ws.len(),
    decreases ws.len(),
{
    lemma_auto_spec_u32_to_from_le_bytes();
    if ws.len() > 0 {
        lemma_words_bytes_len(ws.drop_first());
    }
}

/// Reading the words back from their bytes (followed by anything) gives
/// the words.
proof fn lemma_words_read_back(ws: Seq<u32>, rest: Seq<u8>)
    ensures
        bytes_words(words_bytes(ws) + rest, ws.len()) == ws,
        (words_bytes(ws) + rest).skip(4 * (ws.len() as int)) == rest,
    decreases ws.len(),
{
    lemma_auto_spec_u32_to_from_le_bytes();
    if ws.len() == 0 {
        assert((words_bytes(ws) + rest).skip(0) =~= rest);
    } else {
        let head = spec_u32_to_le_bytes(ws[0]);
        let all = words_bytes(ws) + rest;
        lemma_words_read_back(ws.drop_first(), rest);
        lemma_words_bytes_len(ws.drop_first());
        assert(all =~= head + (words_bytes(ws.drop_first()) + rest));
        assert(all.take(4) =~= head);
        assert(all.skip(4) =~= words_bytes(ws.drop_first()) + rest);
        assert(all.skip(4 * (ws.len() as int)) =~= all.skip(4).skip(4 * (ws.len() as int - 1)));
        assert(bytes_words(all, ws.len()) =~= ws);
    }
}

/// A saved register file reads back as itself.
pub proof fn lemma_regs_state_round_trip(v: RegistersView, rest: Seq<u8>)
    requires
        regs_wf(v),
    ensures
        regs_from_words(bytes_words(words_bytes(regs_words(v)) + rest, 44)) == v,
        (words_bytes(regs_words(v)) + rest).skip(176) == rest,
{
    let ws = regs_words(v);
    assert(ws.len() == 44);
    lemma_words_read_back(ws, rest);
    assert(regs_from_words(ws).r =~= v.r);
    assert(regs_from_words(ws).bank_usr =~= v.bank_usr);
    assert(regs_from_words(ws).bank_fiq =~= v.bank_fiq);
    assert(regs_from_words(ws).bank_irq =~= v.bank_irq);
    assert(regs_from_words(ws).bank_svc =~= v.bank_svc);
    assert(regs_from_words(ws).bank_abt =~= v.bank_abt);
    assert(regs_from_words(ws).bank_und =~= v.bank_und);
    assert(regs_from_words(ws).spsr =~= v.spsr);
}

fn put_words(w: &mut Writer, ws: &[u32])
    ensures
        final(w).buf@ == old(w).buf@ + words_bytes(ws@),
{
    let mut i: usize = 0;
    while i < ws.len()
        invariant
            i <= ws@.len(),
            w.buf@ == old(w).buf@ + words_bytes(ws@.subrange(0, i as int)),
        decreases ws@.len() - i,
    {
        proof {
            lemma_words_bytes_append(ws@.subrange(0, i as int), seq![ws@[i as int]]);
            assert(ws@.subrange(0, i + 1) =~= ws@.subrange(0, i as int) + seq![ws@[i as int]]);
            assert(seq![ws@[i as int]].drop_first() =~= Seq::<u32>::empty());
            assert(words_bytes(Seq::<u32>::empty()) =~= Seq::<u8>::empty());
            assert(words_bytes(seq![ws@[i as int]]) =~= spec_u32_to_le_bytes(ws@[i as int]));
        }
        w.put_u32(ws[i]);
        i = i + 1;
    }
    assert(ws@.subrange(0, ws@.len() as int) =~= ws@);
}

impl Registers {
    /// Appends the 44-word save-state record (see `regs_words`).
    pub fn serialize(&self, w: &mut Writer)
        ensures
            final(w).buf@ == old(w).buf@ + words_bytes(regs_words(self@)),
    {
        let spsr: [u32; 5] = [self.spsr[0].0, self.spsr[1].0, self.spsr[2].0, self.spsr[3].0, self.spsr[4].0];
        let cpsr: [u32; 1] = [self.cpsr.0];
        put_words(w, self.r.as_slice());
        put_words(w, self.bank_usr.as_slice());
        put_words(w, self.bank_fiq.as_slice());
        put_words(w, self.bank_irq.as_slice());
        put_words(w, self.bank_svc.as_slice());
        put_words(w, self.bank_abt.as_slice());
        put_words(w, self.bank_und.as_slice());
        put_words(w, cpsr.as_slice());
        put_words(w, spsr.as_slice());
        proof {
            let v = self@;
            assert(spsr@ =~= v.spsr.map_values(|p: Psr| p.0));
            assert(cpsr@ =~= seq![v.cpsr.0]);
            lemma_words_bytes_append(v.r, v.bank_usr);
            lemma_words_bytes_append(v.r + v.bank_usr, v.bank_fiq);
            lemma_words_bytes_append(v.r + v.bank_usr + v.bank_fiq, v.bank_irq);
            lemma_words_bytes_append(v.r + v.bank_usr + v.bank_fiq + v.bank_irq, v.bank_svc);
            lemma_words_bytes_append(v.r + v.bank_usr + v.bank_fiq + v.bank_irq + v.bank_svc, v.bank_abt);
            lemma_words_bytes_append(v.r + v.bank_usr + v.bank_fiq + v.bank_irq + v.bank_svc + v.bank_abt, v.bank_und);
            lemma_words_bytes_append(
                v.r + v.bank_usr + v.bank_fiq + v.bank_irq + v.bank_svc + v.bank_abt + v.bank_und,
                seq![v.cpsr.0],
            );
            lemma_words_bytes_append(
                v.r + v.bank_usr + v.bank_fiq + v.bank_irq + v.bank_svc + v.bank_abt + v.bank_und + seq![v.cpsr.0],
                v.spsr.map_values(|p: Psr| p.0),
            );
        }
    }

    /// Restores the register file from a save-state record. On a truncated
    /// record the registers are left as they were.
    pub fn deserialize(&mut self, r: &mut Reader) -> (res: Result<(), StateError>)
        ensures
            ({
                let s = old(r).rest();
                &&& s.len() >= 176 ==> res is Ok && final(self)@ == regs_from_words(bytes_words(s, 44))
                    && final(r).rest() == s.skip(176)
                &&& s.len() < 176 ==> res == Err::<(), StateError>(StateError::Truncated)
                    && final(self)@ == old(self)@
            }),
    {
        let ghost s = r.rest();
        let mut ws: Vec<u32> = Vec::new();
        let mut i: usize = 0;
        while i < 44
            invariant
                i <= 44,
                s == old(r).rest(),
                ws@.len() == i,
                s.len() >= 4 * i,
                ws@ == bytes_words(s, i as nat),
                r.rest() == s.skip(4 * i),
                self@ == old(self)@,
            decreases 44 - i,
        {
            match r.get_u32() {
                Ok(x) => {
                    proof {
                        assert(s.len() >= 4 * (i + 1)) by {
                            assert(s.skip(4 * i).len() >= 4);
                        }
                        lemma_bytes_words_step(s, i as nat);
                    }
                    ws.push(x);
                },
                Err(e) => {
                    proof {
                        assert(e == StateError::Truncated);
                        assert(s.len() < 176);
                    }
                    return Err(StateError::Truncated);
                },
            }
            i = i + 1;
        }
        self.r = [ws[0], ws[1], ws[2], ws[3], ws[4], ws[5], ws[6], ws[7], ws[8], ws[9], ws[10], ws[11], ws[12], ws[13], ws[14], ws[15]];
        self.bank_usr = [ws[16], ws[17], ws[18], ws[19], ws[20], ws[21], ws[22]];
        self.bank_fiq = [ws[23], ws[24], ws[25], ws[26], ws[27], ws[28], ws[29]];
        self.bank_irq = [ws[30], ws[31]];
        self.bank_svc = [ws[32], ws[33]];
        self.bank_abt = [ws[34], ws[35]];
        self.bank_und = [ws[36], ws[37]];
        self.cpsr = Psr(ws[38]);
        self.spsr = [Psr(ws[39]), Psr(ws[40]), Psr(ws[41]), Psr(ws[42]), Psr(ws[43])];
        proof {
            let rv = regs_from_words(ws@);
            assert(self@.r =~= rv.r);
            assert(self@.bank_usr =~= rv.bank_usr);
            assert(self@.bank_fiq =~= rv.bank_fiq);
            assert(self@.bank_irq =~= rv.bank_irq);
            assert(self@.bank_svc =~= rv.bank_svc);
            assert(self@.bank_abt =~= rv.bank_abt);
            assert(self@.bank_und =~= rv.bank_und);
            assert(self@.spsr =~= rv.spsr);
        }
        Ok(())
    }
}

/// Switching to another mode and straight back restores every visible
/// register and the CPSR.
pub proof fn lemma_switch_round_trip(v: RegistersView, new: Mode)
    requires
        regs_wf(v),
    ensures
        switched(switched(v, new), mode_of(v.cpsr.0)).r == v.r,
        switched(switched(v, new), mode_of(v.cpsr.0)).cpsr == v.cpsr,
{
    let m = mode_of(v.cpsr.0);
    lemma_mode_bits_round_trip(new, v.cpsr.0);
    lemma_mode_bits_round_trip(m, v.cpsr.0);
    let w = switched(v, new);
    assert(mode_of(w.cpsr.0) == new);
    let c = v.cpsr.0;
    let nb = mode_bits(new);
    let mb = mode_bits(m);
    assert(mb == c & 0x1F);
    assert((((c & !0x1Fu32) | nb) & !0x1Fu32) | mb == c) by (bit_vector)
        requires nb < 0x20, mb == c & 0x1F;
    if m != new {
        let back = switched(w, m);
        assert(back.r =~= v.r);
    }
}

/// Whether a write in `mode` to register `i` goes to a register that is
/// banked between `a` and `b`: r13-r14 between different banks, r8-r14
/// when FIQ is one of them.
pub open spec fn banked_between(a: Mode, b: Mode, i: int) -> bool {
    if a == Mode::Fiq || b == Mode::Fiq {
        8 <= i <= 14
    } else {
        13 <= i <= 14
    }
}

/// User and System share one bank; every other pair of modes banks r13-r14.
pub open spec fn same_bank(a: Mode, b: Mode) -> bool {
    (a == Mode::User || a == Mode::System) && (b == Mode::User || b == Mode::System)
}

/// Switching to another mode shows the same r0-r7 and r15 (and r8-r12 unless
/// FIQ is involved); whatever is then written to the banked registers,
/// switching back restores every register and the CPSR. User and System
/// share their bank, so between them the law is left out.
pub proof fn lemma_switch_round_trip_with_writes(v: RegistersView, new: Mode, vals: Seq<u32>)
    requires
        regs_wf(v),
        new != mode_of(v.cpsr.0),
        !same_bank(mode_of(v.cpsr.0), new),
        vals.len() == 16,
        forall|i: int|
            0 <= i < 16 && !banked_between(mode_of(v.cpsr.0), new, i) ==> vals[i] == #[trigger] switched(
                v,
                new,
            ).r[i],
    ensures
        forall|i: int|
            0 <= i < 16 && !banked_between(mode_of(v.cpsr.0), new, i) ==> #[trigger] switched(v, new).r[i]
                == v.r[i],
        switched(RegistersView { r: vals, ..switched(v, new) }, mode_of(v.cpsr.0)).r == v.r,
        switched(RegistersView { r: vals, ..switched(v, new) }, mode_of(v.cpsr.0)).cpsr == v.cpsr,
{
    let m = mode_of(v.cpsr.0);
    lemma_mode_bits_round_trip(new, v.cpsr.0);
    lemma_mode_bits_round_trip(m, v.cpsr.0);
    let w = switched(v, new);
    let u = RegistersView { r: vals, ..w };
    assert(mode_of(u.cpsr.0) == new);
    let c = v.cpsr.0;
    let nb = mode_bits(new);
    let mb = mode_bits(m);
    assert(mb == c & 0x1F);
    assert((((c & !0x1Fu32) | nb) & !0x1Fu32) | mb == c) by (bit_vector)
        requires nb < 0x20, mb == c & 0x1F;
    if m != new {
        let back = switched(u, m);
        let s1 = saved(u, new);
        assert(u.r == vals);
        assert forall|i: int| 0 <= i < 16 implies #[trigger] back.r[i] == v.r[i] by {
            if i < 8 || i == 15 {
                assert(vals[i] == w.r[i]);
            } else if m == Mode::Fiq || new == Mode::Fiq {
                if i <= 14 {
                    assert(s1.bank_fiq == (if new == Mode::Fiq { vals.subrange(8, 15) } else { w.bank_fiq }));
                }
            } else if i <= 12 {
                assert(vals[i] == w.r[i]);
                assert(s1.bank_usr[i - 8] == vals[i]);
            } else {
                assert(banked_hi(s1, m) == banked_hi(saved(v, m), m));
            }
        }
        assert(back.r =~= v.r);
    }
}

/// Registers r0-r7 and r15 are never banked.
pub proof fn lemma_switch_keeps_low_registers(v: RegistersView, new: Mode, i: int)
    requires
        regs_wf(v),
        0 <= i < 8 || i == 15,
    ensures
        switched(v, new).r[i] == v.r[i],
        switched(v, new).r.len() == 16,
{
}

} // verus!
