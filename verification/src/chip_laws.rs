//! What holds of a chip: how it is named and reset, what its driver is asked, its clock, and numbers
//! in its memory.
use vstd::prelude::*;

#[allow(unused_imports)]
use crate::bytes::{be32, be64, un_be32, un_be64, un_le32, un_le64};
#[allow(unused_imports)]
use crate::chip::{asserted, bdf, config_path, next_phase, ResetEvent, ResetPhase};
#[allow(unused_imports)]
use crate::clock::{
    distance, divs_write, move_fbdiv, solution, supported, upper, word, PllCntl1, PllCntl5, CNTL_1,
};
#[allow(unused_imports)]
use crate::host_buf::PAGE_SIZE;
#[allow(unused_imports)]
use crate::kmd::{
    EIO, IOCTL_ALLOCATE_DMA_BUF, IOCTL_ALLOCATE_TLB, IOCTL_CONFIGURE_TLB, IOCTL_FREE_TLB,
    IOCTL_GET_DEVICE_INFO, IOCTL_RESET_DEVICE, IOCTL_SET_POWER_STATE,
    TENSTORRENT_ALLOCATE_DMA_BUF_NOC_DMA, TENSTORRENT_IOCTL_MAGIC,
    TENSTORRENT_RESET_DEVICE_CONFIG_WRITE, TENSTORRENT_RESET_DEVICE_RESET_PCIE_LINK,
    TENSTORRENT_RESET_DEVICE_RESTORE_STATE, TT_POWER_FLAG_L2CPU_ENABLE, TT_POWER_FLAG_MAX_AI_CLK,
    TT_POWER_FLAG_MRISC_PHY_WAKEUP, TT_POWER_FLAG_TENSIX_ENABLE,
};
#[allow(unused_imports)]
use crate::loader::TWO_MEG;
#[allow(unused_imports)]
use crate::text::{dec, hex, zero_padded};

verus! {

/// A card is named by its domain, its bus, its device and its function; the bus is the high byte of
/// the second number, the device the five bits below it, and the function the lowest three. Its
/// configuration space lies in a file of that name.
pub proof fn how_a_card_is_named(domain: u32, bus: u32, device: u32, function: u32, n: u32)
    requires
        bus < 0x100,
        device < 32,
        function < 8,
        n == bus * 0x100 + device * 8 + function,
    ensures
        bdf(domain, n) == zero_padded(hex(domain as nat), 4) + ":"@ + zero_padded(
            hex(bus as nat),
            2,
        ) + ":"@ + zero_padded(hex(device as nat), 2) + "."@ + dec(function as nat),
        config_path(domain, n) == "/sys/bus/pci/devices/"@ + bdf(domain, n) + "/config"@,
{
    assert((n / 0x100) % 0x100 == bus);
    assert((n / 8) % 32 == device);
    assert(n % 8 == function);
}

/// Bit 1 of the command byte tells whether the chip is in reset.
pub proof fn which_bit_tells_a_reset(byte: u8)
    ensures
        asserted(byte) <==> (byte >> 1u8) & 1 == 1,
{
    assert((byte / 2) % 2 == (byte >> 1u8) & 1) by (bit_vector);
}

/// A reset is identified, triggered, watched and restored, in this order. It is watched until the
/// chip was seen in reset and then out of it, or its time is over.
pub proof fn how_a_reset_goes(byte: u8, late: bool, saw: bool, event: ResetEvent)
    ensures
        next_phase(ResetPhase::Identify, ResetEvent::Done) == ResetPhase::Trigger,
        next_phase(ResetPhase::Trigger, ResetEvent::Done) == (ResetPhase::Poll {
            saw_asserted: false,
        }),
        late ==> next_phase(
            ResetPhase::Poll { saw_asserted: saw },
            ResetEvent::Byte { byte, late },
        ) == ResetPhase::Restore,
        !late && asserted(byte) ==> next_phase(
            ResetPhase::Poll { saw_asserted: saw },
            ResetEvent::Byte { byte, late },
        ) == (ResetPhase::Poll { saw_asserted: true }),
        !late && !asserted(byte) && saw ==> next_phase(
            ResetPhase::Poll { saw_asserted: saw },
            ResetEvent::Byte { byte, late },
        ) == ResetPhase::Restore,
        !late && !asserted(byte) && !saw ==> next_phase(
            ResetPhase::Poll { saw_asserted: saw },
            ResetEvent::Byte { byte, late },
        ) == (ResetPhase::Poll { saw_asserted: false }),
        next_phase(ResetPhase::Restore, ResetEvent::Done) == ResetPhase::Complete,
        next_phase(ResetPhase::Complete, event) == ResetPhase::Complete,
        next_phase(ResetPhase::Failed, event) == ResetPhase::Failed,
{
}

/// The numbers that the driver goes by. The flags of a power request are bits of their own.
pub proof fn what_the_driver_goes_by()
    ensures
        TENSTORRENT_IOCTL_MAGIC == 0xfa,
        IOCTL_GET_DEVICE_INFO == 0xfa00,
        IOCTL_ALLOCATE_DMA_BUF == 0xfa03,
        IOCTL_RESET_DEVICE == 0xfa06,
        IOCTL_ALLOCATE_TLB == 0xfa0b,
        IOCTL_FREE_TLB == 0xfa0c,
        IOCTL_CONFIGURE_TLB == 0xfa0d,
        IOCTL_SET_POWER_STATE == 0xfa0f,
        TENSTORRENT_RESET_DEVICE_RESTORE_STATE == 0,
        TENSTORRENT_RESET_DEVICE_RESET_PCIE_LINK == 1,
        TENSTORRENT_RESET_DEVICE_CONFIG_WRITE == 2,
        TENSTORRENT_ALLOCATE_DMA_BUF_NOC_DMA == 2,
        TT_POWER_FLAG_MAX_AI_CLK == 1,
        TT_POWER_FLAG_MRISC_PHY_WAKEUP == 2 * TT_POWER_FLAG_MAX_AI_CLK,
        TT_POWER_FLAG_TENSIX_ENABLE == 2 * TT_POWER_FLAG_MRISC_PHY_WAKEUP,
        TT_POWER_FLAG_L2CPU_ENABLE == 2 * TT_POWER_FLAG_TENSIX_ENABLE,
        EIO == 5,
        PAGE_SIZE == 4096,
        TWO_MEG == 2 * 1024 * 1024,
{
}

/// Three frequencies can be set: 200 and 1750 MHz are what the dividers make of the reference clock
/// of 25 MHz, and for 15 MHz they are set to twice that. The four post dividers are the same.
pub proof fn which_dividers_make_a_frequency(mhz: u32, i: int)
    requires
        supported(mhz),
        0 <= i < 4,
    ensures
        mhz == 15 || mhz == 200 || mhz == 1750,
        solution(mhz).1.len() == 4,
        solution(mhz).1[i] == solution(mhz).1[0],
        mhz == 200 ==> 25 * solution(mhz).0 == 200 * (solution(mhz).1[i] + 1),
        mhz == 1750 ==> 25 * solution(mhz).0 == 1750 * (solution(mhz).1[i] + 1),
        mhz == 15 ==> 25 * solution(mhz).0 == 30 * (solution(mhz).1[i] + 1),
        mhz == 15 ==> solution(mhz).0 == 120,
        mhz == 200 ==> solution(mhz).0 == 128,
        mhz == 1750 ==> solution(mhz).0 == 140,
        supported(15) && supported(200) && supported(1750),
{
}

/// The first control word holds the reference divider in its low byte, the post divider above it and
/// the feedback divider in its high half; the second holds the four post dividers, the first lowest.
/// A step of the feedback divider changes it by one towards its target.
pub proof fn how_the_control_words_are_made(c1: PllCntl1, c5: PllCntl5, divs: Seq<u8>, target: u16)
    requires
        divs.len() == 4,
    ensures
        c1.value() % 0x100 == c1.refdiv,
        (c1.value() / 0x100) % 0x100 == c1.postdiv,
        c1.value() / 0x1_0000 == c1.fbdiv,
        word(divs) % 0x100 == divs[0],
        (word(divs) / 0x100) % 0x100 == divs[1],
        (word(divs) / 0x1_0000) % 0x100 == divs[2],
        word(divs) / 0x100_0000 == divs[3],
        c5.value() == word(c5.postdiv@),
        divs_write(divs) == (0x8002_0514u64, word(divs)),
        CNTL_1 == 0x8002_0504,
        c1.fbdiv == target ==> move_fbdiv(c1, target).len() == 0,
        c1.fbdiv != target ==> move_fbdiv(c1, target).len() > 0 && move_fbdiv(c1, target)[0].0
            == 0x8002_0504 && move_fbdiv(c1, target)[0].1 == (if c1.fbdiv < target {
            c1.value() + 0x1_0000int
        } else {
            c1.value() - 0x1_0000
        }),
        distance(c1.fbdiv, target) == distance(target, c1.fbdiv),
        c1.fbdiv + distance(c1.fbdiv, target) == target || target + distance(c1.fbdiv, target)
            == c1.fbdiv,
        forall|i: int|
            0 <= i < 4 ==> #[trigger] upper(divs, c5.postdiv@)[i] >= divs[i] && upper(
                divs,
                c5.postdiv@,
            )[i] >= c5.postdiv@[i] && (upper(divs, c5.postdiv@)[i] == divs[i] || upper(
                divs,
                c5.postdiv@,
            )[i] == c5.postdiv@[i]),
{
}

/// A big-endian number has its highest byte first, a little-endian one its lowest; each byte counts
/// 256 times as much as the next one down.
pub proof fn how_numbers_lie_in_memory(a: u8, b: u8, c: u8, d: u8, n: nat, bytes: Seq<u8>)
    requires
        n < 0x1_0000_0000_0000_0000,
        bytes.len() == 8,
    ensures
        un_be32(seq![a, b, c, d]) == ((a * 256 + b) * 256 + c) * 256 + d,
        un_le32(seq![a, b, c, d]) == ((d * 256 + c) * 256 + b) * 256 + a,
        be32((((a * 256 + b) * 256 + c) * 256 + d) as nat) == seq![a, b, c, d],
        be64(n) == be32(n / 0x1_0000_0000) + be32(n % 0x1_0000_0000),
        un_be64(bytes) == un_be32(bytes.take(4)) * 0x1_0000_0000 + un_be32(bytes.skip(4)),
        un_le64(bytes) == un_le32(bytes.skip(4)) * 0x1_0000_0000 + un_le32(bytes.take(4)),
{
    let m = (((a * 256 + b) * 256 + c) * 256 + d) as nat;
    assert(m % 0x100 == d);
    assert((m / 0x100) % 0x100 == c);
    assert((m / 0x1_0000) % 0x100 == b);
    assert((m / 0x100_0000) % 0x100 == a);
    assert(be32(m) =~= seq![a, b, c, d]);
}

} // verus!
