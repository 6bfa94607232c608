//! Cartridge save backend, detected from the ROM. SRAM and Flash are
//! byte-mapped into regions 0x0E/0x0F; EEPROM carts detect as `Absent` here.
use vstd::prelude::*;
use crate::bits::lemma_u32_bits;
use crate::bytes::{copy_of, copy_prefix, filled, overlay};
use crate::gba::flash::{Flash, FlashKind, FlashView, flash_wf, flash_read, flash_write, kind_size, Phase};

verus! {

pub const SRAM_SIZE: usize = 0x8000;

pub enum Save {
    Absent,
    Sram(Vec<u8>),
    Flash(Flash),
}

pub enum SaveView {
    Absent,
    Sram(Seq<u8>),
    Flash(FlashView),
}

impl View for Save {
    type V = SaveView;

    open spec fn view(&self) -> SaveView {
        match self {
            Save::Absent => SaveView::Absent,
            Save::Sram(d) => SaveView::Sram(d@),
            Save::Flash(f) => SaveView::Flash(f@),
        }
    }
}

/// What a byte read of the save region returns: open bus without a backend,
/// SRAM mirrored every 32 KiB, or the Flash chip's answer.
pub open spec fn save_read(v: SaveView, addr: u32) -> u8 {
    match v {
        SaveView::Absent => 0xFF,
        SaveView::Sram(d) => d[(addr & 0x7FFF) as int],
        SaveView::Flash(f) => flash_read(f, addr),
    }
}

/// Effect of a byte write to the save region.
pub open spec fn save_written(v: SaveView, addr: u32, val: u8) -> SaveView {
    match v {
        SaveView::Absent => SaveView::Absent,
        SaveView::Sram(d) => SaveView::Sram(d.update((addr & 0x7FFF) as int, val)),
        SaveView::Flash(f) => SaveView::Flash(flash_write(f, addr, val)),
    }
}

pub open spec fn save_wf(v: SaveView) -> bool {
    match v {
        SaveView::Absent => true,
        SaveView::Sram(d) => d.len() == SRAM_SIZE,
        SaveView::Flash(f) => flash_wf(f),
    }
}

/// Whether `sig` occurs in `rom` at a multiple of four.
pub open spec fn has_signature(rom: Seq<u8>, sig: Seq<u8>) -> bool {
    exists|k: int|
        0 <= k < rom.len() && k % 4 == 0 && k + sig.len() <= rom.len() && #[trigger] rom.subrange(k, k + sig.len())
            == sig
}

pub open spec fn flash1m_sig() -> Seq<u8> {
    seq![0x46u8, 0x4C, 0x41, 0x53, 0x48, 0x31, 0x4D, 0x5F, 0x56]
}

pub open spec fn flash512_sig() -> Seq<u8> {
    seq![0x46u8, 0x4C, 0x41, 0x53, 0x48, 0x35, 0x31, 0x32, 0x5F, 0x56]
}

pub open spec fn flash_sig() -> Seq<u8> {
    seq![0x46u8, 0x4C, 0x41, 0x53, 0x48, 0x5F, 0x56]
}

pub open spec fn sram_sig() -> Seq<u8> {
    seq![0x53u8, 0x52, 0x41, 0x4D, 0x5F, 0x56]
}

pub open spec fn sram_f_sig() -> Seq<u8> {
    seq![0x53u8, 0x52, 0x41, 0x4D, 0x5F, 0x46, 0x5F, 0x56]
}

/// The blank backend a ROM's signatures call for.
pub open spec fn detected(rom: Seq<u8>) -> SaveView {
    if has_signature(rom, flash1m_sig()) {
        SaveView::Flash(blank_flash(FlashKind::M1))
    } else if has_signature(rom, flash512_sig()) || has_signature(rom, flash_sig()) {
        SaveView::Flash(blank_flash(FlashKind::M512))
    } else if has_signature(rom, sram_sig()) || has_signature(rom, sram_f_sig()) {
        SaveView::Sram(Seq::new(SRAM_SIZE as nat, |_i: int| 0xFFu8))
    } else {
        SaveView::Absent
    }
}

pub open spec fn blank_flash(kind: FlashKind) -> FlashView {
    FlashView {
        kind,
        data: Seq::new(kind_size(kind), |_i: int| 0xFFu8),
        phase: Phase::Ready,
        id_mode: false,
        erase_armed: false,
        bank: 0,
    }
}

/// True if `sig` appears in `rom` at a 4-byte boundary.
pub fn contains(rom: &[u8], sig: &[u8]) -> (r: bool)
    ensures
        r == has_signature(rom@, sig@),
{
    let mut i: usize = 0;
    while i < rom.len()
        invariant
            i % 4 == 0,
            i <= rom@.len(),
            forall|k: int|
                0 <= k < i && k % 4 == 0 ==> !(k + sig@.len() <= rom@.len() && #[trigger] rom@.subrange(
                    k,
                    k + sig@.len(),
                ) == sig@),
        decreases rom@.len() - i,
    {
        if sig.len() <= rom.len() - i && matches_at(rom, sig, i) {
            return true;
        }
        if rom.len() - i <= 4 {
            assert forall|k: int| 0 <= k < rom@.len() && k % 4 == 0 && k + sig@.len() <= rom@.len() implies #[trigger] rom@.subrange(
                k,
                k + sig@.len(),
            ) != sig@ by {
                assert(k <= i);
            }
            return false;
        }
        i = i + 4;
    }
    false
}

/// Whether `sig` occurs at offset `i` of `rom`.
fn matches_at(rom: &[u8], sig: &[u8], i: usize) -> (r: bool)
    requires
        i + sig@.len() <= rom@.len(),
    ensures
        r == (rom@.subrange(i as int, i + sig@.len()) == sig@),
{
    let n = rom.len();
    let mut j: usize = 0;
    while j < sig.len()
        invariant
            j <= sig@.len(),
            n == rom@.len(),
            i + sig@.len() <= n,
            forall|t: int| 0 <= t < j ==> rom@[i + t] == sig@[t],
        decreases sig@.len() - j,
    {
        if rom[i + j] != sig[j] {
            assert(rom@.subrange(i as int, i + sig@.len())[j as int] != sig@[j as int]);
            return false;
        }
        j = j + 1;
    }
    assert(rom@.subrange(i as int, i + sig@.len()) =~= sig@);
    true
}

impl Save {
    /// Picks the backend from the SDK signature strings embedded in the ROM.
    /// Size-specific Flash IDs are checked before the generic one; EEPROM and
    /// "no signature" fall through to `Absent`.
    pub fn detect(rom: &[u8]) -> (s: Save)
        ensures
            s@ == detected(rom@),
            save_wf(s@),
    {
        if contains(rom, &[0x46, 0x4C, 0x41, 0x53, 0x48, 0x31, 0x4D, 0x5F, 0x56]) {
            Save::Flash(Flash::with_kind(FlashKind::M1))
        } else if contains(rom, &[0x46, 0x4C, 0x41, 0x53, 0x48, 0x35, 0x31, 0x32, 0x5F, 0x56])
            || contains(rom, &[0x46, 0x4C, 0x41, 0x53, 0x48, 0x5F, 0x56]) {
            Save::Flash(Flash::with_kind(FlashKind::M512))
        } else if contains(rom, &[0x53, 0x52, 0x41, 0x4D, 0x5F, 0x56]) || contains(
            rom,
            &[0x53, 0x52, 0x41, 0x4D, 0x5F, 0x46, 0x5F, 0x56],
        ) {
            Save::Sram(filled(SRAM_SIZE, 0xFF))
        } else {
            Save::Absent
        }
    }

    pub fn read(&self, addr: u32) -> (r: u8)
        requires
            save_wf(self@),
        ensures
            r == save_read(self@, addr),
    {
        match self {
            Save::Absent => 0xFF,
            Save::Sram(d) => {
                proof { lemma_u32_bits(addr); }
                d[(addr & 0x7FFF) as usize]
            },
            Save::Flash(f) => f.read(addr),
        }
    }

    pub fn write(&mut self, addr: u32, val: u8)
        requires
            save_wf(old(self)@),
        ensures
            save_wf(final(self)@),
            final(self)@ == save_written(old(self)@, addr, val),
    {
        match self {
            Save::Absent => {},
            Save::Sram(d) => {
                proof { lemma_u32_bits(addr); }
                d.set((addr & 0x7FFF) as usize, val);
            },
            Save::Flash(f) => f.write(addr, val),
        }
    }

    /// Bytes for the .sav file (None for carts with no save memory).
    pub fn backup(&self) -> (r: Option<Vec<u8>>)
        ensures
            match self@ {
                SaveView::Absent => r is None,
                SaveView::Sram(d) => r matches Some(v) && v@ == d,
                SaveView::Flash(f) => r matches Some(v) && v@ == f.data,
            },
    {
        match self {
            Save::Absent => None,
            Save::Sram(d) => Some(copy_of(d.as_slice())),
            Save::Flash(f) => Some(copy_of(f.bytes())),
        }
    }

    pub fn restore(&mut self, data: &[u8])
        requires
            save_wf(old(self)@),
        ensures
            save_wf(final(self)@),
            final(self)@ == match old(self)@ {
                SaveView::Absent => SaveView::Absent,
                SaveView::Sram(d) => SaveView::Sram(overlay(d, data@)),
                SaveView::Flash(f) => SaveView::Flash(FlashView { data: overlay(f.data, data@), ..f }),
            },
    {
        match self {
            Save::Absent => {},
            Save::Sram(d) => copy_prefix(d, data),
            Save::Flash(f) => f.load(data),
        }
    }
}

/// Restoring a backup into a fresh backend of the same kind gives back the
/// saved contents.
pub proof fn lemma_backup_restore(saved: Seq<u8>, fresh: Seq<u8>)
    requires
        saved.len() == fresh.len(),
    ensures
        overlay(fresh, saved) == saved,
{
    assert(overlay(fresh, saved) =~= saved);
}

} // verus!
