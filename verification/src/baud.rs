//! Baud rates: which ones the stages support, the 16550 divisor that selects
//! them, the UART configuration sent to the stage, and the termios speed codes.

use vstd::prelude::*;
use vstd::string::StringExecFns;
use crate::error::{AppError, AppErrorG, AppErrorView, result_view};
use crate::protocol::{
    is_supported_baud, uart_baud_supported, SUPPORTED_UART_BAUDS, UART_FCR_ENABLE_CLEAR,
    UART_LCR_WLEN8, UART_MCR_DTR_RTS,
};
use crate::text::{dec_chars, push_dec};

verus! {

/// The divisor latch value for `baud` with the Gateway DK's 300 MHz UART clock
/// (rounded to nearest); none when it is zero or does not fit in 16 bits.
pub open spec fn spec_uart_divisor(baud: u32) -> Option<u32> {
    if baud == 0 {
        None
    } else {
        let d = (300_000_000 + baud * 8) / (baud * 16);
        if d == 0 || d > 0xffff {
            None
        } else {
            Some(d as u32)
        }
    }
}

pub fn uart_divisor(baud: u32) -> (r: Option<u32>)
    ensures
        r == spec_uart_divisor(baud),
{
    if baud == 0 {
        return None;
    }
    let b = baud as u64;
    let divisor = (300_000_000u64 + b * 8) / (b * 16);
    if divisor == 0 || divisor > 0xffff {
        None
    } else {
        Some(divisor as u32)
    }
}

/// A baud rate must be supported by the stage and reachable by the divisor.
pub open spec fn spec_validate_baud(flag: Seq<char>, baud: u32) -> Result<(), AppErrorView> {
    if !is_supported_baud(baud) {
        Err(AppErrorG::BaudNotSupported { flag, baud })
    } else if spec_uart_divisor(baud) is None {
        Err(AppErrorG::BaudNoDivisor { flag, baud })
    } else {
        Ok(())
    }
}

pub fn validate_baud(flag: &str, baud: u32) -> (r: Result<(), AppError>)
    ensures
        result_view(r) == spec_validate_baud(flag@, baud),
{
    if !uart_baud_supported(baud) {
        return Err(AppErrorG::BaudNotSupported { flag: String::from_str(flag), baud });
    }
    match uart_divisor(baud) {
        Some(_) => Ok(()),
        None => Err(AppErrorG::BaudNoDivisor { flag: String::from_str(flag), baud }),
    }
}

/// Every supported baud rate is reachable: `spec_validate_baud` only ever rejects
/// rates that the stage does not support.
pub proof fn lemma_supported_bauds_have_divisors(baud: u32)
    requires
        is_supported_baud(baud),
    ensures
        spec_uart_divisor(baud) is Some,
{
    if baud == 9600 {
        assert((300_000_000 + 9600 * 8) / (9600 * 16) == 1953) by (nonlinear_arith);
    }
    if baud == 19200 {
        assert((300_000_000 + 19200 * 8) / (19200 * 16) == 977) by (nonlinear_arith);
    }
    if baud == 38400 {
        assert((300_000_000 + 38400 * 8) / (38400 * 16) == 488) by (nonlinear_arith);
    }
    if baud == 57600 {
        assert((300_000_000 + 57600 * 8) / (57600 * 16) == 326) by (nonlinear_arith);
    }
    if baud == 115200 {
        assert((300_000_000 + 115200 * 8) / (115200 * 16) == 163) by (nonlinear_arith);
    }
    if baud == 230400 {
        assert((300_000_000 + 230400 * 8) / (230400 * 16) == 81) by (nonlinear_arith);
    }
    if baud == 460800 {
        assert((300_000_000 + 460800 * 8) / (460800 * 16) == 41) by (nonlinear_arith);
    }
    if baud == 500000 {
        assert((300_000_000 + 500000 * 8) / (500000 * 16) == 38) by (nonlinear_arith);
    }
    if baud == 576000 {
        assert((300_000_000 + 576000 * 8) / (576000 * 16) == 33) by (nonlinear_arith);
    }
    if baud == 921600 {
        assert((300_000_000 + 921600 * 8) / (921600 * 16) == 20) by (nonlinear_arith);
    }
    if baud == 1000000 {
        assert((300_000_000 + 1000000 * 8) / (1000000 * 16) == 19) by (nonlinear_arith);
    }
    if baud == 1152000 {
        assert((300_000_000 + 1152000 * 8) / (1152000 * 16) == 16) by (nonlinear_arith);
    }
    if baud == 1500000 {
        assert((300_000_000 + 1500000 * 8) / (1500000 * 16) == 13) by (nonlinear_arith);
    }
    if baud == 2000000 {
        assert((300_000_000 + 2000000 * 8) / (2000000 * 16) == 9) by (nonlinear_arith);
    }
    if baud == 2500000 {
        assert((300_000_000 + 2500000 * 8) / (2500000 * 16) == 8) by (nonlinear_arith);
    }
    if baud == 3000000 {
        assert((300_000_000 + 3000000 * 8) / (3000000 * 16) == 6) by (nonlinear_arith);
    }
    if baud == 3500000 {
        assert((300_000_000 + 3500000 * 8) / (3500000 * 16) == 5) by (nonlinear_arith);
    }
    if baud == 4000000 {
        assert((300_000_000 + 4000000 * 8) / (4000000 * 16) == 5) by (nonlinear_arith);
    }
}

/// The supported rates, in increasing order.
pub open spec fn supported_baud_table() -> Seq<u32> {
    seq![
        9_600u32, 19_200, 38_400, 57_600, 115_200, 230_400, 460_800, 500_000, 576_000, 921_600,
        1_000_000, 1_152_000, 1_500_000, 2_000_000, 2_500_000, 3_000_000, 3_500_000, 4_000_000,
    ]
}

/// The table lists exactly the supported rates.
pub proof fn lemma_supported_baud_table(baud: u32)
    ensures
        supported_baud_table().contains(baud) <==> is_supported_baud(baud),
{
    let t = supported_baud_table();
    if is_supported_baud(baud) {
        if baud == 9_600 { assert(t[0] == baud); }
        else if baud == 19_200 { assert(t[1] == baud); }
        else if baud == 38_400 { assert(t[2] == baud); }
        else if baud == 57_600 { assert(t[3] == baud); }
        else if baud == 115_200 { assert(t[4] == baud); }
        else if baud == 230_400 { assert(t[5] == baud); }
        else if baud == 460_800 { assert(t[6] == baud); }
        else if baud == 500_000 { assert(t[7] == baud); }
        else if baud == 576_000 { assert(t[8] == baud); }
        else if baud == 921_600 { assert(t[9] == baud); }
        else if baud == 1_000_000 { assert(t[10] == baud); }
        else if baud == 1_152_000 { assert(t[11] == baud); }
        else if baud == 1_500_000 { assert(t[12] == baud); }
        else if baud == 2_000_000 { assert(t[13] == baud); }
        else if baud == 2_500_000 { assert(t[14] == baud); }
        else if baud == 3_000_000 { assert(t[15] == baud); }
        else if baud == 3_500_000 { assert(t[16] == baud); }
        else { assert(t[17] == baud); }
    }
}

/// Numbers in decimal, comma separated.
pub open spec fn join_dec(s: Seq<u32>) -> Seq<char>
    decreases s.len(),
{
    if s.len() == 0 {
        Seq::empty()
    } else if s.len() == 1 {
        dec_chars(s[0] as nat)
    } else {
        join_dec(s.drop_last()) + ", "@ + dec_chars(s.last() as nat)
    }
}

/// The supported rates as listed in messages.
pub fn supported_bauds() -> (r: String)
    ensures
        r@ == join_dec(supported_baud_table()),
{
    let table = SUPPORTED_UART_BAUDS;
    assert(table@ == supported_baud_table());
    let mut out = String::new();
    let mut i: usize = 0;
    while i < 18
        invariant
            i <= 18,
            table@ == supported_baud_table(),
            out@ == join_dec(table@.take(i as int)),
        decreases 18 - i,
    {
        if i != 0 {
            out.append(", ");
        }
        push_dec(&mut out, table[i] as u64);
        proof {
            assert(table@.take(i + 1).drop_last() =~= table@.take(i as int));
            if i == 0 {
                assert(table@.take(0) =~= Seq::<u32>::empty());
            }
        }
        i = i + 1;
    }
    assert(table@.take(18) =~= table@);
    out
}

/// The UART configuration for `baud`: divisor latch low and high bytes, then the
/// line, FIFO and modem control values.
pub open spec fn spec_uart_config(divisor: u32) -> Seq<u8> {
    seq![
        (divisor % 256) as u8,
        ((divisor / 256) % 256) as u8,
        UART_LCR_WLEN8,
        UART_FCR_ENABLE_CLEAR,
        UART_MCR_DTR_RTS,
    ]
}

pub fn uart_config_for_baud(baud: u32) -> (r: Result<[u8; 5], AppError>)
    ensures
        match spec_uart_divisor(baud) {
            None => r matches Err(e) && e@ == AppErrorG::<Seq<char>>::BaudNoDivisorFor(baud),
            Some(d) => r matches Ok(c) && c@ == spec_uart_config(d),
        },
{
    let divisor = match uart_divisor(baud) {
        Some(d) => d,
        None => return Err(AppErrorG::BaudNoDivisorFor(baud)),
    };
    let c = [
        (divisor % 256) as u8,
        ((divisor / 256) % 256) as u8,
        UART_LCR_WLEN8,
        UART_FCR_ENABLE_CLEAR,
        UART_MCR_DTR_RTS,
    ];
    assert(c@ =~= spec_uart_config(divisor));
    Ok(c)
}

/// The Linux termios speed code of a baud rate.
pub open spec fn spec_baud_to_speed(baud: u32) -> Option<u32> {
    if baud == 9600 { Some(0x000d) }
    else if baud == 19200 { Some(0x000e) }
    else if baud == 38400 { Some(0x000f) }
    else if baud == 57600 { Some(0x1001) }
    else if baud == 115200 { Some(0x1002) }
    else if baud == 230400 { Some(0x1003) }
    else if baud == 460800 { Some(0x1004) }
    else if baud == 500000 { Some(0x1005) }
    else if baud == 576000 { Some(0x1006) }
    else if baud == 921600 { Some(0x1007) }
    else if baud == 1000000 { Some(0x1008) }
    else if baud == 1152000 { Some(0x1009) }
    else if baud == 1500000 { Some(0x100a) }
    else if baud == 2000000 { Some(0x100b) }
    else if baud == 2500000 { Some(0x100c) }
    else if baud == 3000000 { Some(0x100d) }
    else if baud == 3500000 { Some(0x100e) }
    else if baud == 4000000 { Some(0x100f) }
    else { None }
}

pub fn baud_to_speed(baud: u32) -> (r: Option<u32>)
    ensures
        r == spec_baud_to_speed(baud),
{
    match baud {
        9600 => Some(0x000d),
        19200 => Some(0x000e),
        38400 => Some(0x000f),
        57600 => Some(0x1001),
        115200 => Some(0x1002),
        230400 => Some(0x1003),
        460800 => Some(0x1004),
        500000 => Some(0x1005),
        576000 => Some(0x1006),
        921600 => Some(0x1007),
        1000000 => Some(0x1008),
        1152000 => Some(0x1009),
        1500000 => Some(0x100a),
        2000000 => Some(0x100b),
        2500000 => Some(0x100c),
        3000000 => Some(0x100d),
        3500000 => Some(0x100e),
        4000000 => Some(0x100f),
        _ => None,
    }
}

/// The serial port can be set to every rate that the stage supports.
pub proof fn lemma_supported_bauds_have_speed_codes(baud: u32)
    ensures
        is_supported_baud(baud) <==> spec_baud_to_speed(baud) is Some,
{
}

/// The termios speed code of each supported rate is that rate's own code: taking the
/// supported rates in ascending order, the three slowest have the codes 0o15, 0o16 and
/// 0o17 and the others the consecutive extended codes 0x1001, 0x1002, ...; so faster
/// rates have larger codes and no two supported rates share a code.
pub proof fn lemma_speed_codes(b1: u32, b2: u32)
    ensures
        forall|k: int|
            0 <= k < 18 ==> spec_baud_to_speed(#[trigger] supported_baud_table()[k]) == Some(
                if k < 3 {
                    (0x0d + k) as u32
                } else {
                    (0x1001 + (k - 3)) as u32
                },
            ),
        is_supported_baud(b1) && is_supported_baud(b2) && b1 < b2 ==> spec_baud_to_speed(b1)->0
            < spec_baud_to_speed(b2)->0,
        is_supported_baud(b1) && is_supported_baud(b2) && spec_baud_to_speed(b1) == spec_baud_to_speed(
            b2,
        ) ==> b1 == b2,
{
    let t = supported_baud_table();
    assert forall|k: int|
        0 <= k < 18 implies spec_baud_to_speed(#[trigger] t[k]) == Some(
            if k < 3 {
                (0x0d + k) as u32
            } else {
                (0x1001 + (k - 3)) as u32
            },
        ) by {
        assert(k == 0 || k == 1 || k == 2 || k == 3 || k == 4 || k == 5 || k == 6 || k == 7 || k == 8
            || k == 9 || k == 10 || k == 11 || k == 12 || k == 13 || k == 14 || k == 15 || k == 16
            || k == 17);
    }
}

} // verus!
