//! The TCP socket-diagnostics record: decoding it from the raw bytes the
//! kernel writes, and the success/failure contract of a diagnostics query.
//!
//! The decoder consumes exactly the declared layout (`crate::layout`): fields
//! sit at fixed bit offsets, packed in declaration order with no implicit
//! padding, sub-byte fields starting at the least-significant bit of their
//! shared byte, multi-byte fields in the host's little-endian order. Bytes
//! past the declared size are never read, whatever the kernel makes
//! available. The query itself (a kernel call on a socket handle) is outside
//! this crate; its outcome — the filled buffer, or the error code captured at
//! the moment of failure — is handed in as a value.

use vstd::prelude::*;
use vstd::string::*;
use crate::bits::{
    bit_at, le_bits, lemma_le_bits_eq, read_u8_at, read_u4_at, read_bool_at, read_u32_at,
    read_u64_at,
};
use crate::layout::{bit_offset, field_widths, lemma_layout_byte_aligned};
use crate::TCP_INFO_LEN;

verus! {

/// The decoded diagnostics record. Every field is the value of the bits at
/// its declared offset; the two window scales share one byte (low nibble
/// sent, high nibble received) and the delivery-rate flag is a single bit.
#[derive(Clone, Copy, Debug)]
pub struct TcpInfo {
    pub tcpi_state: u8,
    pub tcpi_ca_state: u8,
    pub tcpi_retransmits: u8,
    pub tcpi_probes: u8,
    pub tcpi_backoff: u8,
    pub tcpi_options: u8,
    pub tcpi_snd_wscale: u8,
    pub tcpi_rcv_wscale: u8,
    pub tcpi_delivery_rate_app_limited: bool,
    pub tcpi_rto: u32,
    pub tcpi_ato: u32,
    pub tcpi_snd_mss: u32,
    pub tcpi_rcv_mss: u32,
    pub tcpi_unacked: u32,
    pub tcpi_sacked: u32,
    pub tcpi_lost: u32,
    pub tcpi_retrans: u32,
    pub tcpi_fackets: u32,
    pub tcpi_last_data_sent: u32,
    pub tcpi_last_ack_sent: u32,
    pub tcpi_last_data_recv: u32,
    pub tcpi_last_ack_recv: u32,
    pub tcpi_pmtu: u32,
    pub tcpi_rcv_ssthresh: u32,
    pub tcpi_rtt: u32,
    pub tcpi_rttvar: u32,
    pub tcpi_snd_ssthresh: u32,
    pub tcpi_snd_cwnd: u32,
    pub tcpi_advmss: u32,
    pub tcpi_reordering: u32,
    pub tcpi_rcv_rtt: u32,
    pub tcpi_rcv_space: u32,
    pub tcpi_total_retrans: u32,
    pub tcpi_pacing_rate: u64,
    pub tcpi_max_pacing_rate: u64,
    pub tcpi_bytes_acked: u64,
    pub tcpi_bytes_received: u64,
    pub tcpi_segs_out: u32,
    pub tcpi_segs_in: u32,
    pub tcpi_notsent_bytes: u32,
    pub tcpi_min_rtt: u32,
    pub tcpi_data_segs_in: u32,
    pub tcpi_data_segs_out: u32,
    pub tcpi_delivery_rate: u64,
    pub tcpi_busy_time: u64,
    pub tcpi_rwnd_limited: u64,
    pub tcpi_sndbuf_limited: u64,
    pub tcpi_delivered: u32,
    pub tcpi_delivered_ce: u32,
    pub tcpi_bytes_sent: u64,
    pub tcpi_bytes_retrans: u64,
    pub tcpi_dsack_dups: u32,
    pub tcpi_reord_seen: u32,
}

/// What each field of the record is, given the raw bytes: the value of the
/// bits at the field's declared offset (`crate::layout::lemma_layout_byte_aligned`
/// pins each offset as the sum of the widths declared before the field).
/// Only bits 0..1792 — the declared layout — are consulted.
pub open spec fn decode_spec(b: Seq<u8>) -> TcpInfo {
    TcpInfo {
        tcpi_state: le_bits(b, 0, 8) as u8,
        tcpi_ca_state: le_bits(b, 8, 8) as u8,
        tcpi_retransmits: le_bits(b, 16, 8) as u8,
        tcpi_probes: le_bits(b, 24, 8) as u8,
        tcpi_backoff: le_bits(b, 32, 8) as u8,
        tcpi_options: le_bits(b, 40, 8) as u8,
        tcpi_snd_wscale: le_bits(b, 48, 4) as u8,
        tcpi_rcv_wscale: le_bits(b, 52, 4) as u8,
        tcpi_delivery_rate_app_limited: le_bits(b, 56, 1) == 1,
        tcpi_rto: le_bits(b, 57, 32) as u32,
        tcpi_ato: le_bits(b, 89, 32) as u32,
        tcpi_snd_mss: le_bits(b, 121, 32) as u32,
        tcpi_rcv_mss: le_bits(b, 153, 32) as u32,
        tcpi_unacked: le_bits(b, 185, 32) as u32,
        tcpi_sacked: le_bits(b, 217, 32) as u32,
        tcpi_lost: le_bits(b, 249, 32) as u32,
        tcpi_retrans: le_bits(b, 281, 32) as u32,
        tcpi_fackets: le_bits(b, 313, 32) as u32,
        tcpi_last_data_sent: le_bits(b, 345, 32) as u32,
        tcpi_last_ack_sent: le_bits(b, 377, 32) as u32,
        tcpi_last_data_recv: le_bits(b, 409, 32) as u32,
        tcpi_last_ack_recv: le_bits(b, 441, 32) as u32,
        tcpi_pmtu: le_bits(b, 473, 32) as u32,
        tcpi_rcv_ssthresh: le_bits(b, 505, 32) as u32,
        tcpi_rtt: le_bits(b, 537, 32) as u32,
        tcpi_rttvar: le_bits(b, 569, 32) as u32,
        tcpi_snd_ssthresh: le_bits(b, 601, 32) as u32,
        tcpi_snd_cwnd: le_bits(b, 633, 32) as u32,
        tcpi_advmss: le_bits(b, 665, 32) as u32,
        tcpi_reordering: le_bits(b, 697, 32) as u32,
        tcpi_rcv_rtt: le_bits(b, 729, 32) as u32,
        tcpi_rcv_space: le_bits(b, 761, 32) as u32,
        tcpi_total_retrans: le_bits(b, 793, 32) as u32,
        tcpi_pacing_rate: le_bits(b, 825, 64) as u64,
        tcpi_max_pacing_rate: le_bits(b, 889, 64) as u64,
        tcpi_bytes_acked: le_bits(b, 953, 64) as u64,
        tcpi_bytes_received: le_bits(b, 1017, 64) as u64,
        tcpi_segs_out: le_bits(b, 1081, 32) as u32,
        tcpi_segs_in: le_bits(b, 1113, 32) as u32,
        tcpi_notsent_bytes: le_bits(b, 1145, 32) as u32,
        tcpi_min_rtt: le_bits(b, 1177, 32) as u32,
        tcpi_data_segs_in: le_bits(b, 1209, 32) as u32,
        tcpi_data_segs_out: le_bits(b, 1241, 32) as u32,
        tcpi_delivery_rate: le_bits(b, 1273, 64) as u64,
        tcpi_busy_time: le_bits(b, 1337, 64) as u64,
        tcpi_rwnd_limited: le_bits(b, 1401, 64) as u64,
        tcpi_sndbuf_limited: le_bits(b, 1465, 64) as u64,
        tcpi_delivered: le_bits(b, 1529, 32) as u32,
        tcpi_delivered_ce: le_bits(b, 1561, 32) as u32,
        tcpi_bytes_sent: le_bits(b, 1593, 64) as u64,
        tcpi_bytes_retrans: le_bits(b, 1657, 64) as u64,
        tcpi_dsack_dups: le_bits(b, 1721, 32) as u32,
        tcpi_reord_seen: le_bits(b, 1753, 32) as u32,
    }
}

/// Decode a kernel-written buffer into the typed record, all fields at once.
/// The buffer must hold at least the declared layout; nothing past the
/// declared size is read.
pub fn decode(buf: &[u8]) -> (info: TcpInfo)
    requires
        buf@.len() >= TCP_INFO_LEN,
    ensures
        info == decode_spec(buf@),
{
    assert(buf@.len() * 8 >= 1792);
    TcpInfo {
        tcpi_state: read_u8_at(buf, 0),
        tcpi_ca_state: read_u8_at(buf, 8),
        tcpi_retransmits: read_u8_at(buf, 16),
        tcpi_probes: read_u8_at(buf, 24),
        tcpi_backoff: read_u8_at(buf, 32),
        tcpi_options: read_u8_at(buf, 40),
        tcpi_snd_wscale: read_u4_at(buf, 48),
        tcpi_rcv_wscale: read_u4_at(buf, 52),
        tcpi_delivery_rate_app_limited: read_bool_at(buf, 56),
        tcpi_rto: read_u32_at(buf, 57),
        tcpi_ato: read_u32_at(buf, 89),
        tcpi_snd_mss: read_u32_at(buf, 121),
        tcpi_rcv_mss: read_u32_at(buf, 153),
        tcpi_unacked: read_u32_at(buf, 185),
        tcpi_sacked: read_u32_at(buf, 217),
        tcpi_lost: read_u32_at(buf, 249),
        tcpi_retrans: read_u32_at(buf, 281),
        tcpi_fackets: read_u32_at(buf, 313),
        tcpi_last_data_sent: read_u32_at(buf, 345),
        tcpi_last_ack_sent: read_u32_at(buf, 377),
        tcpi_last_data_recv: read_u32_at(buf, 409),
        tcpi_last_ack_recv: read_u32_at(buf, 441),
        tcpi_pmtu: read_u32_at(buf, 473),
        tcpi_rcv_ssthresh: read_u32_at(buf, 505),
        tcpi_rtt: read_u32_at(buf, 537),
        tcpi_rttvar: read_u32_at(buf, 569),
        tcpi_snd_ssthresh: read_u32_at(buf, 601),
        tcpi_snd_cwnd: read_u32_at(buf, 633),
        tcpi_advmss: read_u32_at(buf, 665),
        tcpi_reordering: read_u32_at(buf, 697),
        tcpi_rcv_rtt: read_u32_at(buf, 729),
        tcpi_rcv_space: read_u32_at(buf, 761),
        tcpi_total_retrans: read_u32_at(buf, 793),
        tcpi_pacing_rate: read_u64_at(buf, 825),
        tcpi_max_pacing_rate: read_u64_at(buf, 889),
        tcpi_bytes_acked: read_u64_at(buf, 953),
        tcpi_bytes_received: read_u64_at(buf, 1017),
        tcpi_segs_out: read_u32_at(buf, 1081),
        tcpi_segs_in: read_u32_at(buf, 1113),
        tcpi_notsent_bytes: read_u32_at(buf, 1145),
        tcpi_min_rtt: read_u32_at(buf, 1177),
        tcpi_data_segs_in: read_u32_at(buf, 1209),
        tcpi_data_segs_out: read_u32_at(buf, 1241),
        tcpi_delivery_rate: read_u64_at(buf, 1273),
        tcpi_busy_time: read_u64_at(buf, 1337),
        tcpi_rwnd_limited: read_u64_at(buf, 1401),
        tcpi_sndbuf_limited: read_u64_at(buf, 1465),
        tcpi_delivered: read_u32_at(buf, 1529),
        tcpi_delivered_ce: read_u32_at(buf, 1561),
        tcpi_bytes_sent: read_u64_at(buf, 1593),
        tcpi_bytes_retrans: read_u64_at(buf, 1657),
        tcpi_dsack_dups: read_u32_at(buf, 1721),
        tcpi_reord_seen: read_u32_at(buf, 1753),
    }
}

/// The error of a failed diagnostics query: the OS error code read from the
/// thread-local error state at the moment the call failed.
#[derive(Debug)]
pub struct GetSockOptError {
    pub errno: i32,
}

impl Default for GetSockOptError {
    fn default() -> (r: Self)
        ensures
            r.errno == 0,
    {
        GetSockOptError { errno: 0 }
    }
}

/// The character for one decimal digit.
pub open spec fn digit_char(d: nat) -> char {
    if d == 0 {
        '0'
    } else if d == 1 {
        '1'
    } else if d == 2 {
        '2'
    } else if d == 3 {
        '3'
    } else if d == 4 {
        '4'
    } else if d == 5 {
        '5'
    } else if d == 6 {
        '6'
    } else if d == 7 {
        '7'
    } else if d == 8 {
        '8'
    } else {
        '9'
    }
}

/// The decimal digits of `n`, most significant first, no leading zeros
/// (a single `'0'` for zero itself).
pub open spec fn dec_seq(n: nat) -> Seq<char>
    decreases n,
{
    if n < 10 {
        seq![digit_char(n)]
    } else {
        dec_seq(n / 10) + seq![digit_char(n % 10)]
    }
}

/// How a fetch error reads: the word `Errno`, then the signed decimal code.
pub open spec fn message_spec(e: int) -> Seq<char> {
    "Errno: "@ + (if e < 0 {
        seq!['-'] + dec_seq((-e) as nat)
    } else {
        dec_seq(e as nat)
    })
}

/// One decimal digit as text.
fn digit_str(d: u8) -> (r: &'static str)
    requires
        d < 10,
    ensures
        r@ == seq![digit_char(d as nat)],
{
    proof {
        reveal_strlit("0");
        reveal_strlit("1");
        reveal_strlit("2");
        reveal_strlit("3");
        reveal_strlit("4");
        reveal_strlit("5");
        reveal_strlit("6");
        reveal_strlit("7");
        reveal_strlit("8");
        reveal_strlit("9");
    }
    if d == 0 {
        proof {
            assert("0"@ =~= seq![digit_char(0)]);
        }
        "0"
    } else if d == 1 {
        proof {
            assert("1"@ =~= seq![digit_char(1)]);
        }
        "1"
    } else if d == 2 {
        proof {
            assert("2"@ =~= seq![digit_char(2)]);
        }
        "2"
    } else if d == 3 {
        proof {
            assert("3"@ =~= seq![digit_char(3)]);
        }
        "3"
    } else if d == 4 {
        proof {
            assert("4"@ =~= seq![digit_char(4)]);
        }
        "4"
    } else if d == 5 {
        proof {
            assert("5"@ =~= seq![digit_char(5)]);
        }
        "5"
    } else if d == 6 {
        proof {
            assert("6"@ =~= seq![digit_char(6)]);
        }
        "6"
    } else if d == 7 {
        proof {
            assert("7"@ =~= seq![digit_char(7)]);
        }
        "7"
    } else if d == 8 {
        proof {
            assert("8"@ =~= seq![digit_char(8)]);
        }
        "8"
    } else {
        proof {
            assert("9"@ =~= seq![digit_char(9)]);
        }
        "9"
    }
}

/// Append the decimal digits of `n`, most significant first.
fn push_dec(s: &mut String, n: u64)
    ensures
        final(s)@ == old(s)@ + dec_seq(n as nat),
    decreases n,
{
    if n >= 10 {
        push_dec(s, n / 10);
        let d: u8 = (n % 10) as u8;
        s.append(digit_str(d));
        proof {
            assert(final(s)@ =~= old(s)@ + dec_seq(n as nat));
        }
    } else {
        let d: u8 = n as u8;
        s.append(digit_str(d));
        proof {
            assert(final(s)@ =~= old(s)@ + dec_seq(n as nat));
        }
    }
}

impl GetSockOptError {
    /// The error rendered as text: the word `Errno`, a colon, and the signed
    /// decimal code, exactly as `message_spec` lays it out.
    pub fn message(&self) -> (r: String)
        ensures
            r@ == message_spec(self.errno as int),
    {
        let mut s: String = String::from_str("Errno: ");
        if self.errno < 0 {
            s.append("-");
            let m: i64 = -(self.errno as i64);
            push_dec(&mut s, m as u64);
            proof {
                reveal_strlit("-");
                assert(s@ =~= message_spec(self.errno as int));
            }
        } else {
            push_dec(&mut s, self.errno as u64);
        }
        s
    }
}

/// What the kernel query produced, as plain values: either the buffer it
/// filled on success, or the error code that was read from the thread-local
/// error state immediately after the call signalled failure.
pub enum SockoptOutcome {
    Filled { buf: Vec<u8> },
    Failed { errno: i32 },
}

/// Number of bytes the fetcher asks the kernel for: exactly the declared
/// layout's size, never more, whatever capacity the kernel could advertise.
pub fn get_tcp_info_len() -> (n: usize)
    ensures
        n == TCP_INFO_LEN,
        8 * n == crate::layout::total_bits(),
{
    proof {
        crate::layout::lemma_layout_byte_aligned();
    }
    TCP_INFO_LEN
}

/// Turn a query outcome into the typed result: a failure yields exactly the
/// captured error code and no record at all; a filled buffer yields the fully
/// decoded record, atomically, with nothing read past the declared size.
pub fn get_tcp_info(outcome: SockoptOutcome) -> (r: Result<TcpInfo, GetSockOptError>)
    requires
        outcome matches SockoptOutcome::Filled { buf } ==> buf@.len() >= TCP_INFO_LEN,
    ensures
        (match outcome {
            SockoptOutcome::Filled { buf } => r == Ok::<TcpInfo, GetSockOptError>(
                decode_spec(buf@),
            ),
            SockoptOutcome::Failed { errno } => r == Err::<TcpInfo, GetSockOptError>(
                GetSockOptError { errno },
            ),
        }),
{
    match outcome {
        SockoptOutcome::Filled { buf } => Ok(decode(buf.as_slice())),
        SockoptOutcome::Failed { errno } => Err(GetSockOptError { errno }),
    }
}

/// Bytes past the declared layout never matter: two buffers with the same
/// first `TCP_INFO_LEN` bytes decode to the same record, whatever either
/// holds beyond that.
pub proof fn lemma_decode_ignores_excess(b1: Seq<u8>, b2: Seq<u8>)
    requires
        b1.len() >= TCP_INFO_LEN,
        b2.len() >= TCP_INFO_LEN,
        b1.take(TCP_INFO_LEN as int) == b2.take(TCP_INFO_LEN as int),
    ensures
        decode_spec(b1) == decode_spec(b2),
{
    assert forall|k: nat| k < 1792 implies bit_at(b1, k) == bit_at(b2, k) by {
        let j = (k / 8) as int;
        assert(b1.take(TCP_INFO_LEN as int)[j] == b1[j]);
        assert(b2.take(TCP_INFO_LEN as int)[j] == b2[j]);
    }
    lemma_fields_agree(b1, b2);
}

/// Buffers that agree on every declared bit decode to the same record.
proof fn lemma_fields_agree(b1: Seq<u8>, b2: Seq<u8>)
    requires
        forall|k: nat| k < 1792 ==> bit_at(b1, k) == bit_at(b2, k),
    ensures
        decode_spec(b1) == decode_spec(b2),
{
    lemma_le_bits_eq(b1, b2, 0, 8);
    lemma_le_bits_eq(b1, b2, 8, 8);
    lemma_le_bits_eq(b1, b2, 16, 8);
    lemma_le_bits_eq(b1, b2, 24, 8);
    lemma_le_bits_eq(b1, b2, 32, 8);
    lemma_le_bits_eq(b1, b2, 40, 8);
    lemma_le_bits_eq(b1, b2, 48, 4);
    lemma_le_bits_eq(b1, b2, 52, 4);
    lemma_le_bits_eq(b1, b2, 56, 1);
    lemma_le_bits_eq(b1, b2, 57, 32);
    lemma_le_bits_eq(b1, b2, 89, 32);
    lemma_le_bits_eq(b1, b2, 121, 32);
    lemma_le_bits_eq(b1, b2, 153, 32);
    lemma_le_bits_eq(b1, b2, 185, 32);
    lemma_le_bits_eq(b1, b2, 217, 32);
    lemma_le_bits_eq(b1, b2, 249, 32);
    lemma_le_bits_eq(b1, b2, 281, 32);
    lemma_le_bits_eq(b1, b2, 313, 32);
    lemma_le_bits_eq(b1, b2, 345, 32);
    lemma_le_bits_eq(b1, b2, 377, 32);
    lemma_le_bits_eq(b1, b2, 409, 32);
    lemma_le_bits_eq(b1, b2, 441, 32);
    lemma_le_bits_eq(b1, b2, 473, 32);
    lemma_le_bits_eq(b1, b2, 505, 32);
    lemma_le_bits_eq(b1, b2, 537, 32);
    lemma_le_bits_eq(b1, b2, 569, 32);
    lemma_le_bits_eq(b1, b2, 601, 32);
    lemma_le_bits_eq(b1, b2, 633, 32);
    lemma_le_bits_eq(b1, b2, 665, 32);
    lemma_le_bits_eq(b1, b2, 697, 32);
    lemma_le_bits_eq(b1, b2, 729, 32);
    lemma_le_bits_eq(b1, b2, 761, 32);
    lemma_le_bits_eq(b1, b2, 793, 32);
    lemma_le_bits_eq(b1, b2, 825, 64);
    lemma_le_bits_eq(b1, b2, 889, 64);
    lemma_le_bits_eq(b1, b2, 953, 64);
    lemma_le_bits_eq(b1, b2, 1017, 64);
    lemma_le_bits_eq(b1, b2, 1081, 32);
    lemma_le_bits_eq(b1, b2, 1113, 32);
    lemma_le_bits_eq(b1, b2, 1145, 32);
    lemma_le_bits_eq(b1, b2, 1177, 32);
    lemma_le_bits_eq(b1, b2, 1209, 32);
    lemma_le_bits_eq(b1, b2, 1241, 32);
    lemma_le_bits_eq(b1, b2, 1273, 64);
    lemma_le_bits_eq(b1, b2, 1337, 64);
    lemma_le_bits_eq(b1, b2, 1401, 64);
    lemma_le_bits_eq(b1, b2, 1465, 64);
    lemma_le_bits_eq(b1, b2, 1529, 32);
    lemma_le_bits_eq(b1, b2, 1561, 32);
    lemma_le_bits_eq(b1, b2, 1593, 64);
    lemma_le_bits_eq(b1, b2, 1657, 64);
    lemma_le_bits_eq(b1, b2, 1721, 32);
    lemma_le_bits_eq(b1, b2, 1753, 32);
}

/// The decoder reads every field at exactly its declared place: the bit
/// offset of field `i` is the sum of the widths declared before it, and the
/// width is the declared one. Stated for each field of the record over the
/// layout's own `bit_offset` and `field_widths`.
pub proof fn lemma_decode_reads_declared_layout(b: Seq<u8>)
    ensures
        decode_spec(b).tcpi_state as nat == le_bits(b, bit_offset(0), field_widths()[0]),
        decode_spec(b).tcpi_ca_state as nat == le_bits(b, bit_offset(1), field_widths()[1]),
        decode_spec(b).tcpi_retransmits as nat == le_bits(b, bit_offset(2), field_widths()[2]),
        decode_spec(b).tcpi_probes as nat == le_bits(b, bit_offset(3), field_widths()[3]),
        decode_spec(b).tcpi_backoff as nat == le_bits(b, bit_offset(4), field_widths()[4]),
        decode_spec(b).tcpi_options as nat == le_bits(b, bit_offset(5), field_widths()[5]),
        decode_spec(b).tcpi_snd_wscale as nat == le_bits(b, bit_offset(6), field_widths()[6]),
        decode_spec(b).tcpi_rcv_wscale as nat == le_bits(b, bit_offset(7), field_widths()[7]),
        decode_spec(b).tcpi_delivery_rate_app_limited == (le_bits(
            b,
            bit_offset(8),
            field_widths()[8],
        ) == 1),
        decode_spec(b).tcpi_rto as nat == le_bits(b, bit_offset(9), field_widths()[9]),
        decode_spec(b).tcpi_ato as nat == le_bits(b, bit_offset(10), field_widths()[10]),
        decode_spec(b).tcpi_snd_mss as nat == le_bits(b, bit_offset(11), field_widths()[11]),
        decode_spec(b).tcpi_rcv_mss as nat == le_bits(b, bit_offset(12), field_widths()[12]),
        decode_spec(b).tcpi_unacked as nat == le_bits(b, bit_offset(13), field_widths()[13]),
        decode_spec(b).tcpi_sacked as nat == le_bits(b, bit_offset(14), field_widths()[14]),
        decode_spec(b).tcpi_lost as nat == le_bits(b, bit_offset(15), field_widths()[15]),
        decode_spec(b).tcpi_retrans as nat == le_bits(b, bit_offset(16), field_widths()[16]),
        decode_spec(b).tcpi_fackets as nat == le_bits(b, bit_offset(17), field_widths()[17]),
        decode_spec(b).tcpi_last_data_sent as nat == le_bits(b, bit_offset(18), field_widths()[18]),
        decode_spec(b).tcpi_last_ack_sent as nat == le_bits(b, bit_offset(19), field_widths()[19]),
        decode_spec(b).tcpi_last_data_recv as nat == le_bits(b, bit_offset(20), field_widths()[20]),
        decode_spec(b).tcpi_last_ack_recv as nat == le_bits(b, bit_offset(21), field_widths()[21]),
        decode_spec(b).tcpi_pmtu as nat == le_bits(b, bit_offset(22), field_widths()[22]),
        decode_spec(b).tcpi_rcv_ssthresh as nat == le_bits(b, bit_offset(23), field_widths()[23]),
        decode_spec(b).tcpi_rtt as nat == le_bits(b, bit_offset(24), field_widths()[24]),
        decode_spec(b).tcpi_rttvar as nat == le_bits(b, bit_offset(25), field_widths()[25]),
        decode_spec(b).tcpi_snd_ssthresh as nat == le_bits(b, bit_offset(26), field_widths()[26]),
        decode_spec(b).tcpi_snd_cwnd as nat == le_bits(b, bit_offset(27), field_widths()[27]),
        decode_spec(b).tcpi_advmss as nat == le_bits(b, bit_offset(28), field_widths()[28]),
        decode_spec(b).tcpi_reordering as nat == le_bits(b, bit_offset(29), field_widths()[29]),
        decode_spec(b).tcpi_rcv_rtt as nat == le_bits(b, bit_offset(30), field_widths()[30]),
        decode_spec(b).tcpi_rcv_space as nat == le_bits(b, bit_offset(31), field_widths()[31]),
        decode_spec(b).tcpi_total_retrans as nat == le_bits(b, bit_offset(32), field_widths()[32]),
        decode_spec(b).tcpi_pacing_rate as nat == le_bits(b, bit_offset(33), field_widths()[33]),
        decode_spec(b).tcpi_max_pacing_rate as nat == le_bits(
            b,
            bit_offset(34),
            field_widths()[34],
        ),
        decode_spec(b).tcpi_bytes_acked as nat == le_bits(b, bit_offset(35), field_widths()[35]),
        decode_spec(b).tcpi_bytes_received as nat == le_bits(b, bit_offset(36), field_widths()[36]),
        decode_spec(b).tcpi_segs_out as nat == le_bits(b, bit_offset(37), field_widths()[37]),
        decode_spec(b).tcpi_segs_in as nat == le_bits(b, bit_offset(38), field_widths()[38]),
        decode_spec(b).tcpi_notsent_bytes as nat == le_bits(b, bit_offset(39), field_widths()[39]),
        decode_spec(b).tcpi_min_rtt as nat == le_bits(b, bit_offset(40), field_widths()[40]),
        decode_spec(b).tcpi_data_segs_in as nat == le_bits(b, bit_offset(41), field_widths()[41]),
        decode_spec(b).tcpi_data_segs_out as nat == le_bits(b, bit_offset(42), field_widths()[42]),
        decode_spec(b).tcpi_delivery_rate as nat == le_bits(b, bit_offset(43), field_widths()[43]),
        decode_spec(b).tcpi_busy_time as nat == le_bits(b, bit_offset(44), field_widths()[44]),
        decode_spec(b).tcpi_rwnd_limited as nat == le_bits(b, bit_offset(45), field_widths()[45]),
        decode_spec(b).tcpi_sndbuf_limited as nat == le_bits(b, bit_offset(46), field_widths()[46]),
        decode_spec(b).tcpi_delivered as nat == le_bits(b, bit_offset(47), field_widths()[47]),
        decode_spec(b).tcpi_delivered_ce as nat == le_bits(b, bit_offset(48), field_widths()[48]),
        decode_spec(b).tcpi_bytes_sent as nat == le_bits(b, bit_offset(49), field_widths()[49]),
        decode_spec(b).tcpi_bytes_retrans as nat == le_bits(b, bit_offset(50), field_widths()[50]),
        decode_spec(b).tcpi_dsack_dups as nat == le_bits(b, bit_offset(51), field_widths()[51]),
        decode_spec(b).tcpi_reord_seen as nat == le_bits(b, bit_offset(52), field_widths()[52]),
{
    lemma_layout_byte_aligned();
    crate::bits::lemma_le_bits_bound(b, 0, 8);
    crate::bits::lemma_le_bits_bound(b, 8, 8);
    crate::bits::lemma_le_bits_bound(b, 16, 8);
    crate::bits::lemma_le_bits_bound(b, 24, 8);
    crate::bits::lemma_le_bits_bound(b, 32, 8);
    crate::bits::lemma_le_bits_bound(b, 40, 8);
    crate::bits::lemma_le_bits_bound(b, 48, 4);
    crate::bits::lemma_le_bits_bound(b, 52, 4);
    crate::bits::lemma_le_bits_bound(b, 57, 32);
    crate::bits::lemma_le_bits_bound(b, 89, 32);
    crate::bits::lemma_le_bits_bound(b, 121, 32);
    crate::bits::lemma_le_bits_bound(b, 153, 32);
    crate::bits::lemma_le_bits_bound(b, 185, 32);
    crate::bits::lemma_le_bits_bound(b, 217, 32);
    crate::bits::lemma_le_bits_bound(b, 249, 32);
    crate::bits::lemma_le_bits_bound(b, 281, 32);
    crate::bits::lemma_le_bits_bound(b, 313, 32);
    crate::bits::lemma_le_bits_bound(b, 345, 32);
    crate::bits::lemma_le_bits_bound(b, 377, 32);
    crate::bits::lemma_le_bits_bound(b, 409, 32);
    crate::bits::lemma_le_bits_bound(b, 441, 32);
    crate::bits::lemma_le_bits_bound(b, 473, 32);
    crate::bits::lemma_le_bits_bound(b, 505, 32);
    crate::bits::lemma_le_bits_bound(b, 537, 32);
    crate::bits::lemma_le_bits_bound(b, 569, 32);
    crate::bits::lemma_le_bits_bound(b, 601, 32);
    crate::bits::lemma_le_bits_bound(b, 633, 32);
    crate::bits::lemma_le_bits_bound(b, 665, 32);
    crate::bits::lemma_le_bits_bound(b, 697, 32);
    crate::bits::lemma_le_bits_bound(b, 729, 32);
    crate::bits::lemma_le_bits_bound(b, 761, 32);
    crate::bits::lemma_le_bits_bound(b, 793, 32);
    crate::bits::lemma_le_bits_bound(b, 825, 64);
    crate::bits::lemma_le_bits_bound(b, 889, 64);
    crate::bits::lemma_le_bits_bound(b, 953, 64);
    crate::bits::lemma_le_bits_bound(b, 1017, 64);
    crate::bits::lemma_le_bits_bound(b, 1081, 32);
    crate::bits::lemma_le_bits_bound(b, 1113, 32);
    crate::bits::lemma_le_bits_bound(b, 1145, 32);
    crate::bits::lemma_le_bits_bound(b, 1177, 32);
    crate::bits::lemma_le_bits_bound(b, 1209, 32);
    crate::bits::lemma_le_bits_bound(b, 1241, 32);
    crate::bits::lemma_le_bits_bound(b, 1273, 64);
    crate::bits::lemma_le_bits_bound(b, 1337, 64);
    crate::bits::lemma_le_bits_bound(b, 1401, 64);
    crate::bits::lemma_le_bits_bound(b, 1465, 64);
    crate::bits::lemma_le_bits_bound(b, 1529, 32);
    crate::bits::lemma_le_bits_bound(b, 1561, 32);
    crate::bits::lemma_le_bits_bound(b, 1593, 64);
    crate::bits::lemma_le_bits_bound(b, 1657, 64);
    crate::bits::lemma_le_bits_bound(b, 1721, 32);
    crate::bits::lemma_le_bits_bound(b, 1753, 32);
    vstd::arithmetic::power2::lemma2_to64();
}

/// The send window scale depends only on the low nibble of its shared byte:
/// buffers that agree on bits 48..52 decode the same value, however the
/// sibling nibble or anything else differs.
pub proof fn lemma_snd_wscale_independent(b1: Seq<u8>, b2: Seq<u8>)
    requires
        forall|k: nat| 48 <= k < 52 ==> bit_at(b1, k) == bit_at(b2, k),
    ensures
        decode_spec(b1).tcpi_snd_wscale == decode_spec(b2).tcpi_snd_wscale,
{
    lemma_le_bits_eq(b1, b2, 48, 4);
}

/// The receive window scale depends only on the high nibble of its shared
/// byte: buffers that agree on bits 52..56 decode the same value, however the
/// sibling nibble or anything else differs.
pub proof fn lemma_rcv_wscale_independent(b1: Seq<u8>, b2: Seq<u8>)
    requires
        forall|k: nat| 52 <= k < 56 ==> bit_at(b1, k) == bit_at(b2, k),
    ensures
        decode_spec(b1).tcpi_rcv_wscale == decode_spec(b2).tcpi_rcv_wscale,
{
    lemma_le_bits_eq(b1, b2, 52, 4);
}

} // verus!

