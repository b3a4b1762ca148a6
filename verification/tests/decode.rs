use tcp_diag::tcp_info::{decode, get_tcp_info, get_tcp_info_len, SockoptOutcome, TcpInfo};

/// A zeroed buffer of exactly the declared layout size.
fn layout_buf() -> Vec<u8> {
    vec![0u8; get_tcp_info_len()]
}

/// Set bit `idx` of the buffer's bit string (bit `idx % 8` of byte `idx / 8`,
/// least-significant bit first).
fn set_bit(buf: &mut [u8], idx: usize) {
    buf[idx / 8] |= 1u8 << (idx % 8);
}

/// Write the low `width` bits of `value` at bit offset `off`.
fn put_bits(buf: &mut [u8], off: usize, width: usize, value: u64) {
    for k in 0..width {
        if (value >> k) & 1 == 1 {
            set_bit(buf, off + k);
        }
    }
}

fn assert_all_zero_except_state_retransmits_cwnd(info: &TcpInfo) {
    assert_eq!(info.tcpi_ca_state, 0);
    assert_eq!(info.tcpi_probes, 0);
    assert_eq!(info.tcpi_backoff, 0);
    assert_eq!(info.tcpi_options, 0);
    assert_eq!(info.tcpi_snd_wscale, 0);
    assert_eq!(info.tcpi_rcv_wscale, 0);
    assert!(!info.tcpi_delivery_rate_app_limited);
    assert_eq!(info.tcpi_rto, 0);
    assert_eq!(info.tcpi_ato, 0);
    assert_eq!(info.tcpi_snd_mss, 0);
    assert_eq!(info.tcpi_rcv_mss, 0);
    assert_eq!(info.tcpi_unacked, 0);
    assert_eq!(info.tcpi_sacked, 0);
    assert_eq!(info.tcpi_lost, 0);
    assert_eq!(info.tcpi_retrans, 0);
    assert_eq!(info.tcpi_fackets, 0);
    assert_eq!(info.tcpi_last_data_sent, 0);
    assert_eq!(info.tcpi_last_ack_sent, 0);
    assert_eq!(info.tcpi_last_data_recv, 0);
    assert_eq!(info.tcpi_last_ack_recv, 0);
    assert_eq!(info.tcpi_pmtu, 0);
    assert_eq!(info.tcpi_rcv_ssthresh, 0);
    assert_eq!(info.tcpi_rtt, 0);
    assert_eq!(info.tcpi_rttvar, 0);
    assert_eq!(info.tcpi_snd_ssthresh, 0);
    assert_eq!(info.tcpi_advmss, 0);
    assert_eq!(info.tcpi_reordering, 0);
    assert_eq!(info.tcpi_rcv_rtt, 0);
    assert_eq!(info.tcpi_rcv_space, 0);
    assert_eq!(info.tcpi_total_retrans, 0);
    assert_eq!(info.tcpi_pacing_rate, 0);
    assert_eq!(info.tcpi_max_pacing_rate, 0);
    assert_eq!(info.tcpi_bytes_acked, 0);
    assert_eq!(info.tcpi_bytes_received, 0);
    assert_eq!(info.tcpi_segs_out, 0);
    assert_eq!(info.tcpi_segs_in, 0);
    assert_eq!(info.tcpi_notsent_bytes, 0);
    assert_eq!(info.tcpi_min_rtt, 0);
    assert_eq!(info.tcpi_data_segs_in, 0);
    assert_eq!(info.tcpi_data_segs_out, 0);
    assert_eq!(info.tcpi_delivery_rate, 0);
    assert_eq!(info.tcpi_busy_time, 0);
    assert_eq!(info.tcpi_rwnd_limited, 0);
    assert_eq!(info.tcpi_sndbuf_limited, 0);
    assert_eq!(info.tcpi_delivered, 0);
    assert_eq!(info.tcpi_delivered_ce, 0);
    assert_eq!(info.tcpi_bytes_sent, 0);
    assert_eq!(info.tcpi_bytes_retrans, 0);
    assert_eq!(info.tcpi_dsack_dups, 0);
    assert_eq!(info.tcpi_reord_seen, 0);
}

#[test]
fn layout_is_byte_aligned() {
    // 1792 declared bits, pad included: a whole number of bytes.
    assert_eq!(get_tcp_info_len(), 224);
    assert_eq!(get_tcp_info_len() * 8, 1792);
}

#[test]
fn nibble_fields_decode_independently() {
    // Byte 6 holds the two window scales: low nibble sent, high nibble
    // received.
    let mut buf = layout_buf();
    buf[6] = 0x3A;
    let info = decode(&buf);
    assert_eq!(info.tcpi_snd_wscale, 0xA);
    assert_eq!(info.tcpi_rcv_wscale, 0x3);

    // Changing only the high nibble leaves the low-nibble field untouched.
    buf[6] = 0x5A;
    let info = decode(&buf);
    assert_eq!(info.tcpi_snd_wscale, 0xA);
    assert_eq!(info.tcpi_rcv_wscale, 0x5);
}

#[test]
fn decode_fidelity_mock_buffer() {
    // State byte 1, retransmits byte 0, congestion window encoding 10
    // (its 32 bits start at bit 633, one bit into byte 79); everything else
    // zero.
    let mut buf = layout_buf();
    buf[0] = 1;
    buf[2] = 0;
    put_bits(&mut buf, 633, 32, 10);
    assert_eq!(buf[79], 0x14);
    let info = decode(&buf);
    assert_eq!(info.tcpi_state, 1);
    assert_eq!(info.tcpi_retransmits, 0);
    assert_eq!(info.tcpi_snd_cwnd, 10);
    assert_all_zero_except_state_retransmits_cwnd(&info);
}

#[test]
fn byte_fields_in_declaration_order() {
    let mut buf = layout_buf();
    buf[0] = 1;
    buf[1] = 2;
    buf[2] = 3;
    buf[3] = 4;
    buf[4] = 5;
    buf[5] = 6;
    let info = decode(&buf);
    assert_eq!(info.tcpi_state, 1);
    assert_eq!(info.tcpi_ca_state, 2);
    assert_eq!(info.tcpi_retransmits, 3);
    assert_eq!(info.tcpi_probes, 4);
    assert_eq!(info.tcpi_backoff, 5);
    assert_eq!(info.tcpi_options, 6);
}

#[test]
fn flag_bit_and_neighbour_field() {
    // Byte 7: bit 0 is the delivery-rate flag (bit 56); the retransmission
    // timeout's 32 bits follow immediately at bit 57, unaligned.
    let mut buf = layout_buf();
    buf[7] = 0x02;
    let info = decode(&buf);
    assert!(!info.tcpi_delivery_rate_app_limited);
    assert_eq!(info.tcpi_rto, 1);

    buf[7] = 0x01;
    let info = decode(&buf);
    assert!(info.tcpi_delivery_rate_app_limited);
    assert_eq!(info.tcpi_rto, 0);

    buf[7] = 0x05;
    let info = decode(&buf);
    assert!(info.tcpi_delivery_rate_app_limited);
    assert_eq!(info.tcpi_rto, 2);
}

#[test]
fn every_field_round_trips_through_raw_bits() {
    // Encode a distinct value into every field with an independent
    // bit-setting helper, then check the decoder reads each one back.
    let mut buf = layout_buf();
    put_bits(&mut buf, 0, 8, 11);
    put_bits(&mut buf, 8, 8, 2);
    put_bits(&mut buf, 16, 8, 3);
    put_bits(&mut buf, 24, 8, 255);
    put_bits(&mut buf, 32, 8, 5);
    put_bits(&mut buf, 40, 8, 6);
    put_bits(&mut buf, 48, 4, 0x7);
    put_bits(&mut buf, 52, 4, 0xE);
    put_bits(&mut buf, 56, 1, 1);
    put_bits(&mut buf, 57, 32, 0x12345678);
    put_bits(&mut buf, 89, 32, 0xFFFFFFFF);
    put_bits(&mut buf, 121, 32, 1460);
    put_bits(&mut buf, 153, 32, 536);
    put_bits(&mut buf, 185, 32, 10);
    put_bits(&mut buf, 217, 32, 11);
    put_bits(&mut buf, 249, 32, 12);
    put_bits(&mut buf, 281, 32, 13);
    put_bits(&mut buf, 313, 32, 14);
    put_bits(&mut buf, 345, 32, 15);
    put_bits(&mut buf, 377, 32, 16);
    put_bits(&mut buf, 409, 32, 17);
    put_bits(&mut buf, 441, 32, 18);
    put_bits(&mut buf, 473, 32, 1500);
    put_bits(&mut buf, 505, 32, 20);
    put_bits(&mut buf, 537, 32, 21);
    put_bits(&mut buf, 569, 32, 22);
    put_bits(&mut buf, 601, 32, 23);
    put_bits(&mut buf, 633, 32, 24);
    put_bits(&mut buf, 665, 32, 25);
    put_bits(&mut buf, 697, 32, 26);
    put_bits(&mut buf, 729, 32, 27);
    put_bits(&mut buf, 761, 32, 28);
    put_bits(&mut buf, 793, 32, 29);
    put_bits(&mut buf, 825, 64, 0x0123456789ABCDEF);
    put_bits(&mut buf, 889, 64, u64::MAX);
    put_bits(&mut buf, 953, 64, 32);
    put_bits(&mut buf, 1017, 64, 33);
    put_bits(&mut buf, 1081, 32, 34);
    put_bits(&mut buf, 1113, 32, 35);
    put_bits(&mut buf, 1145, 32, 36);
    put_bits(&mut buf, 1177, 32, 37);
    put_bits(&mut buf, 1209, 32, 38);
    put_bits(&mut buf, 1241, 32, 39);
    put_bits(&mut buf, 1273, 64, 40);
    put_bits(&mut buf, 1337, 64, 41);
    put_bits(&mut buf, 1401, 64, 42);
    put_bits(&mut buf, 1465, 64, 43);
    put_bits(&mut buf, 1529, 32, 44);
    put_bits(&mut buf, 1561, 32, 45);
    put_bits(&mut buf, 1593, 64, 46);
    put_bits(&mut buf, 1657, 64, 47);
    put_bits(&mut buf, 1721, 32, 0xDEADBEEF);
    put_bits(&mut buf, 1753, 32, 0xCAFEF00D);
    let info = decode(&buf);
    assert_eq!(info.tcpi_state, 11);
    assert_eq!(info.tcpi_ca_state, 2);
    assert_eq!(info.tcpi_retransmits, 3);
    assert_eq!(info.tcpi_probes, 255);
    assert_eq!(info.tcpi_backoff, 5);
    assert_eq!(info.tcpi_options, 6);
    assert_eq!(info.tcpi_snd_wscale, 0x7);
    assert_eq!(info.tcpi_rcv_wscale, 0xE);
    assert!(info.tcpi_delivery_rate_app_limited);
    assert_eq!(info.tcpi_rto, 0x12345678);
    assert_eq!(info.tcpi_ato, 0xFFFFFFFF);
    assert_eq!(info.tcpi_snd_mss, 1460);
    assert_eq!(info.tcpi_rcv_mss, 536);
    assert_eq!(info.tcpi_unacked, 10);
    assert_eq!(info.tcpi_sacked, 11);
    assert_eq!(info.tcpi_lost, 12);
    assert_eq!(info.tcpi_retrans, 13);
    assert_eq!(info.tcpi_fackets, 14);
    assert_eq!(info.tcpi_last_data_sent, 15);
    assert_eq!(info.tcpi_last_ack_sent, 16);
    assert_eq!(info.tcpi_last_data_recv, 17);
    assert_eq!(info.tcpi_last_ack_recv, 18);
    assert_eq!(info.tcpi_pmtu, 1500);
    assert_eq!(info.tcpi_rcv_ssthresh, 20);
    assert_eq!(info.tcpi_rtt, 21);
    assert_eq!(info.tcpi_rttvar, 22);
    assert_eq!(info.tcpi_snd_ssthresh, 23);
    assert_eq!(info.tcpi_snd_cwnd, 24);
    assert_eq!(info.tcpi_advmss, 25);
    assert_eq!(info.tcpi_reordering, 26);
    assert_eq!(info.tcpi_rcv_rtt, 27);
    assert_eq!(info.tcpi_rcv_space, 28);
    assert_eq!(info.tcpi_total_retrans, 29);
    assert_eq!(info.tcpi_pacing_rate, 0x0123456789ABCDEF);
    assert_eq!(info.tcpi_max_pacing_rate, u64::MAX);
    assert_eq!(info.tcpi_bytes_acked, 32);
    assert_eq!(info.tcpi_bytes_received, 33);
    assert_eq!(info.tcpi_segs_out, 34);
    assert_eq!(info.tcpi_segs_in, 35);
    assert_eq!(info.tcpi_notsent_bytes, 36);
    assert_eq!(info.tcpi_min_rtt, 37);
    assert_eq!(info.tcpi_data_segs_in, 38);
    assert_eq!(info.tcpi_data_segs_out, 39);
    assert_eq!(info.tcpi_delivery_rate, 40);
    assert_eq!(info.tcpi_busy_time, 41);
    assert_eq!(info.tcpi_rwnd_limited, 42);
    assert_eq!(info.tcpi_sndbuf_limited, 43);
    assert_eq!(info.tcpi_delivered, 44);
    assert_eq!(info.tcpi_delivered_ce, 45);
    assert_eq!(info.tcpi_bytes_sent, 46);
    assert_eq!(info.tcpi_bytes_retrans, 47);
    assert_eq!(info.tcpi_dsack_dups, 0xDEADBEEF);
    assert_eq!(info.tcpi_reord_seen, 0xCAFEF00D);
}

#[test]
fn excess_bytes_are_never_read() {
    // A simulated kernel making more bytes available than the declared
    // layout: everything past the declared size is garbage, and the decoded
    // record matches the declared prefix alone.
    let mut big = vec![0u8; 300];
    big[0] = 7;
    put_bits(&mut big, 633, 32, 99);
    for b in big.iter_mut().skip(get_tcp_info_len()) {
        *b = 0xFF;
    }
    let r = get_tcp_info(SockoptOutcome::Filled { buf: big });
    let info = r.expect("a filled buffer decodes");
    assert_eq!(info.tcpi_state, 7);
    assert_eq!(info.tcpi_snd_cwnd, 99);
    // Fields living in the last declared bytes are still read from the
    // declared region, not from the garbage past it.
    assert_eq!(info.tcpi_reord_seen, 0);
    assert_eq!(info.tcpi_dsack_dups, 0);
}
