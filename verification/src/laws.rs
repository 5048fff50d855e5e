//! Protocol laws.
//!
//! These proof functions state, over the same spec functions that the
//! executable contracts use, how the transport behaves across whole word
//! streams: what `send`'s output decodes back to, what a partial frame
//! does, how the completing word is acknowledged, and what a node ignores.

use vstd::prelude::*;

use crate::checksum::crc16_usb_of;
use crate::parser::spec_parse_frame;
use crate::spec_addr_match;
use crate::spec_frame_bytes;
use crate::spec_frame_words;
use crate::spec_ingest_buf;
use crate::spec_ingest_reply;
use crate::spec_is_address_word;
use crate::spec_low_byte;
use crate::spec_word_addr;
use crate::spec_word_bytes;
use crate::Address;
use crate::MAX_APPDATA_LEN;
use crate::Reply;

verus! {

/// The accumulation buffer after a whole word sequence is ingested, one
/// word at a time.
pub open spec fn spec_run_buf(own: Address, buf: Seq<u8>, words: Seq<u16>) -> Seq<u8>
    decreases words.len(),
{
    if words.len() == 0 {
        buf
    } else {
        spec_run_buf(own, spec_ingest_buf(own, buf, words[0]), words.skip(1))
    }
}

/// Whether ingesting a whole word sequence, one word at a time, provokes
/// no reply at all.
pub open spec fn spec_run_silent(slave: bool, own: Address, buf: Seq<u8>, words: Seq<u16>) -> bool
    decreases words.len(),
{
    words.len() == 0 || (spec_ingest_reply(slave, own, buf, words[0]) == Reply::Silent
        && spec_run_silent(slave, own, spec_ingest_buf(own, buf, words[0]), words.skip(1)))
}

proof fn lemma_run_buf_snoc(own: Address, buf: Seq<u8>, words: Seq<u16>, w: u16)
    ensures
        spec_run_buf(own, buf, words.push(w)) == spec_ingest_buf(
            own,
            spec_run_buf(own, buf, words),
            w,
        ),
    decreases words.len(),
{
    if words.len() == 0 {
        assert(words.push(w)[0] == w);
        assert(words.push(w).skip(1) =~= Seq::<u16>::empty());
        assert(spec_run_buf(own, spec_ingest_buf(own, buf, w), Seq::<u16>::empty())
            == spec_ingest_buf(own, buf, w));
        assert(spec_run_buf(own, buf, words) == buf);
    } else {
        assert(words.push(w)[0] == words[0]);
        assert(words.push(w).skip(1) =~= words.skip(1).push(w));
        lemma_run_buf_snoc(own, spec_ingest_buf(own, buf, words[0]), words.skip(1), w);
        assert(spec_run_buf(own, buf, words) == spec_run_buf(
            own,
            spec_ingest_buf(own, buf, words[0]),
            words.skip(1),
        ));
    }
}

proof fn lemma_run_silent_snoc(slave: bool, own: Address, buf: Seq<u8>, words: Seq<u16>, w: u16)
    ensures
        spec_run_silent(slave, own, buf, words.push(w)) == (spec_run_silent(
            slave,
            own,
            buf,
            words,
        ) && spec_ingest_reply(slave, own, spec_run_buf(own, buf, words), w) == Reply::Silent),
    decreases words.len(),
{
    if words.len() == 0 {
        assert(words.push(w)[0] == w);
        assert(words.push(w).skip(1) =~= Seq::<u16>::empty());
        assert(spec_run_silent(slave, own, spec_ingest_buf(own, buf, w), Seq::<u16>::empty()));
        assert(spec_run_silent(slave, own, buf, words));
        assert(spec_run_buf(own, buf, words) == buf);
    } else {
        assert(words.push(w)[0] == words[0]);
        assert(words.push(w).skip(1) =~= words.skip(1).push(w));
        lemma_run_silent_snoc(slave, own, spec_ingest_buf(own, buf, words[0]), words.skip(1), w);
        assert(spec_run_buf(own, buf, words) == spec_run_buf(
            own,
            spec_ingest_buf(own, buf, words[0]),
            words.skip(1),
        ));
        assert(spec_run_silent(slave, own, buf, words) == (spec_ingest_reply(
            slave,
            own,
            buf,
            words[0],
        ) == Reply::Silent && spec_run_silent(
            slave,
            own,
            spec_ingest_buf(own, buf, words[0]),
            words.skip(1),
        )));
    }
}

/// Every word of a serialized frame except the first carries a plain data
/// byte, and the first carries the address marker.
proof fn lemma_frame_word_shapes(address: Address, payload: Seq<u8>, crc: u16)
    requires
        payload.len() < MAX_APPDATA_LEN,
    ensures
        spec_is_address_word(spec_frame_words(address, payload, crc)[0]),
        spec_word_addr(spec_frame_words(address, payload, crc)[0]) == address & 0xf,
        forall|j: int|
            1 <= j < spec_frame_words(address, payload, crc).len() ==> !spec_is_address_word(
                #[trigger] spec_frame_words(address, payload, crc)[j],
            ),
{
    let words = spec_frame_words(address, payload, crc);
    assert((((address as u16) << 4) | 0x100) & 0x100 != 0) by (bit_vector);
    assert((((((address as u16) << 4) | 0x100) & 0xff) >> 4) as u8 == address & 0xf)
        by (bit_vector);
    let lw: u16 = payload.len() as u16;
    assert(lw & 0x100 == 0) by (bit_vector)
        requires
            lw < 254,
    ;
    assert(forall|b: u8| #[trigger] ((b as u16) & 0x100) == 0) by (bit_vector);
    assert(forall|c: u16| ((#[trigger] (c & 0xff)) & 0x100) == 0) by (bit_vector);
    assert(forall|c: u16| ((#[trigger] (c >> 8)) & 0x100) == 0) by (bit_vector);
    assert forall|j: int| 1 <= j < words.len() implies !spec_is_address_word(
        #[trigger] words[j],
    ) by {
        if j == 1 {
            assert(words[j] == lw);
        } else if j < 2 + payload.len() {
            assert(words[j] == payload[j - 2] as u16);
        } else if j == 2 + payload.len() {
            assert(words[j] == crc & 0xff);
        } else {
            assert(words[j] == crc >> 8);
        }
    }
}

/// The data bytes of a frame's word sequence are exactly its wire bytes.
pub proof fn lemma_frame_word_bytes(address: Address, payload: Seq<u8>, crc: u16)
    requires
        payload.len() < MAX_APPDATA_LEN,
    ensures
        spec_word_bytes(spec_frame_words(address, payload, crc)) == spec_frame_bytes(
            address,
            payload,
            crc,
        ),
{
    let words = spec_frame_words(address, payload, crc);
    let bytes = spec_frame_bytes(address, payload, crc);
    let w0 = ((address as u16) << 4) | 0x100;
    assert((w0 & 0xff) as u8 == (address << 4) as u8) by (bit_vector)
        requires
            w0 == ((address as u16) << 4) | 0x100,
    ;
    let lw: u16 = payload.len() as u16;
    assert((lw & 0xff) as u8 == lw as u8) by (bit_vector)
        requires
            lw < 254,
    ;
    assert(forall|b: u8| ((#[trigger] (b as u16)) & 0xff) as u8 == b) by (bit_vector);
    assert(forall|c: u16| ((#[trigger] (c & 0xff)) & 0xff) as u8 == (c & 0xff) as u8)
        by (bit_vector);
    assert(forall|c: u16| ((#[trigger] (c >> 8)) & 0xff) as u8 == (c >> 8) as u8) by (bit_vector);
    assert forall|j: int| 0 <= j < words.len() implies spec_low_byte(words[j]) == bytes[j] by {
        if j == 0 {
            assert(words[j] == w0);
        } else if j == 1 {
            assert(words[j] == lw);
            assert(bytes[j] == payload.len() as u8);
        } else if j < 2 + payload.len() {
            assert(words[j] == payload[j - 2] as u16);
            assert(bytes[j] == payload[j - 2]);
        } else if j == 2 + payload.len() {
            assert(words[j] == crc & 0xff);
            assert(bytes[j] == (crc & 0xff) as u8);
        } else {
            assert(words[j] == crc >> 8);
            assert(bytes[j] == (crc >> 8) as u8);
        }
    }
    assert(spec_word_bytes(words) =~= bytes);
}

/// The wire bytes of a whole frame decode to exactly its fields, consuming
/// every byte; the address nibble comes back as it was laid down.
pub proof fn lemma_parse_frame_bytes(address: Address, payload: Seq<u8>, crc: u16)
    requires
        payload.len() < MAX_APPDATA_LEN,
    ensures
        ({
            let bytes = spec_frame_bytes(address, payload, crc);
            match spec_parse_frame(bytes) {
                Some(pf) => pf.0.address == address & 0xf && pf.0.payload == payload
                    && pf.0.checksum == crc && pf.1 == bytes.len(),
                None => false,
            }
        }),
{
    let bytes = spec_frame_bytes(address, payload, crc);
    assert(bytes.len() == 4 + payload.len());
    assert(bytes[1] == payload.len() as u8);
    assert(((address << 4) as u8) >> 4 == address & 0xf) by (bit_vector);
    let n = payload.len() as u8;
    assert(bytes.len() == 4 + n);
    assert(bytes.subrange(2, 2 + n as int) =~= payload);
    let lo: u8 = (crc & 0xff) as u8;
    let hi: u8 = (crc >> 8) as u8;
    assert(bytes[2 + n as int] == lo);
    assert(bytes[3 + n as int] == hi);
    assert(lo + 256 * hi == crc) by (bit_vector)
        requires
            lo == (crc & 0xff) as u8 && hi == (crc >> 8) as u8,
    ;
}

/// Feeding the first `k` words of a frame addressed to this node leaves
/// exactly the frame's first `k` wire bytes in the buffer, and no word
/// before the one that completes the frame provokes a reply.
proof fn lemma_feed_frame_prefix(
    slave: bool,
    own: Address,
    buf0: Seq<u8>,
    address: Address,
    payload: Seq<u8>,
    crc: u16,
    k: int,
)
    requires
        payload.len() < MAX_APPDATA_LEN,
        spec_addr_match(own, address & 0xf),
        1 <= k <= spec_frame_words(address, payload, crc).len(),
    ensures
        spec_run_buf(own, buf0, spec_frame_words(address, payload, crc).take(k))
            == spec_frame_bytes(address, payload, crc).take(k),
        k < spec_frame_words(address, payload, crc).len() ==> spec_run_silent(
            slave,
            own,
            buf0,
            spec_frame_words(address, payload, crc).take(k),
        ),
    decreases k,
{
    let words = spec_frame_words(address, payload, crc);
    let bytes = spec_frame_bytes(address, payload, crc);
    lemma_frame_word_shapes(address, payload, crc);
    lemma_frame_word_bytes(address, payload, crc);
    if k == 1 {
        let w0 = words[0];
        assert(words.take(1) =~= Seq::<u16>::empty().push(w0));
        assert(spec_run_buf(own, buf0, Seq::<u16>::empty()) == buf0);
        assert(spec_run_silent(slave, own, buf0, Seq::<u16>::empty()));
        lemma_run_buf_snoc(own, buf0, Seq::<u16>::empty(), w0);
        lemma_run_silent_snoc(slave, own, buf0, Seq::<u16>::empty(), w0);
        assert(spec_ingest_buf(own, buf0, w0) == seq![spec_low_byte(w0)]);
        assert(spec_word_bytes(words)[0] == spec_low_byte(w0));
        assert(bytes.take(1) =~= seq![spec_low_byte(w0)]);
    } else {
        lemma_feed_frame_prefix(slave, own, buf0, address, payload, crc, k - 1);
        let wk = words[k - 1];
        assert(words.take(k) =~= words.take(k - 1).push(wk));
        lemma_run_buf_snoc(own, buf0, words.take(k - 1), wk);
        lemma_run_silent_snoc(slave, own, buf0, words.take(k - 1), wk);
        let before = bytes.take(k - 1);
        assert(!spec_is_address_word(wk));
        assert(1 <= before.len() < 512);
        assert(spec_word_bytes(words)[k - 1] == spec_low_byte(wk));
        assert(spec_ingest_buf(own, before, wk) == before.push(bytes[k - 1]));
        assert(bytes.take(k) =~= before.push(bytes[k - 1]));
        if k < words.len() {
            lemma_parse_prefix_incomplete(address, payload, crc, k);
            assert(spec_ingest_reply(slave, own, before, wk) == Reply::Silent);
        }
    }
}

/// Feeding every word of a frame but the last to a node it is addressed
/// to provokes no reply at all and leaves the partial frame in the buffer:
/// an incomplete frame is never acknowledged or refused.
pub proof fn lemma_short_frame_stays_silent(
    own: Address,
    buf0: Seq<u8>,
    address: Address,
    payload: Seq<u8>,
    crc: u16,
)
    requires
        payload.len() < MAX_APPDATA_LEN,
        spec_addr_match(own, address & 0xf),
    ensures
        ({
            let words = spec_frame_words(address, payload, crc);
            let short = words.take(words.len() - 1);
            &&& spec_run_silent(true, own, buf0, short)
            &&& spec_run_buf(own, buf0, short).len() > 0
        }),
{
    let words = spec_frame_words(address, payload, crc);
    assert(words.len() == payload.len() + 4);
    lemma_feed_frame_prefix(true, own, buf0, address, payload, crc, words.len() - 1);
}

/// The word that completes a frame addressed to this node is answered at
/// once: with an acknowledgement when the checksum it carries is the
/// digest of its payload, and with a refusal otherwise. Afterwards the
/// buffer holds the whole frame, ready for assembly.
pub proof fn lemma_complete_frame_reply(
    own: Address,
    buf0: Seq<u8>,
    address: Address,
    payload: Seq<u8>,
    crc: u16,
)
    requires
        payload.len() < MAX_APPDATA_LEN,
        spec_addr_match(own, address & 0xf),
    ensures
        ({
            let words = spec_frame_words(address, payload, crc);
            let before = spec_run_buf(own, buf0, words.take(words.len() - 1));
            let reply = spec_ingest_reply(true, own, before, words.last());
            &&& spec_run_buf(own, buf0, words) == spec_frame_bytes(address, payload, crc)
            &&& reply == (if crc == crc16_usb_of(payload) {
                Reply::Ack
            } else {
                Reply::Nack
            })
        }),
{
    let words = spec_frame_words(address, payload, crc);
    let bytes = spec_frame_bytes(address, payload, crc);
    lemma_frame_word_shapes(address, payload, crc);
    lemma_frame_word_bytes(address, payload, crc);
    lemma_feed_frame_prefix(true, own, buf0, address, payload, crc, words.len() - 1);
    lemma_feed_frame_prefix(true, own, buf0, address, payload, crc, words.len() as int);
    assert(words.take(words.len() as int) =~= words);
    assert(bytes.take(bytes.len() as int) =~= bytes);
    let before = bytes.take(words.len() - 1);
    let wl = words.last();
    assert(!spec_is_address_word(wl));
    assert(1 <= before.len() < 512);
    assert(spec_word_bytes(words)[words.len() - 1] == spec_low_byte(wl));
    assert(before.push(bytes[bytes.len() - 1]) =~= bytes);
    lemma_parse_frame_bytes(address, payload, crc);
}

proof fn lemma_data_words_keep_empty(slave: bool, own: Address, words: Seq<u16>)
    requires
        forall|j: int| 0 <= j < words.len() ==> !spec_is_address_word(#[trigger] words[j]),
    ensures
        spec_run_buf(own, Seq::<u8>::empty(), words) == Seq::<u8>::empty(),
        spec_run_silent(slave, own, Seq::<u8>::empty(), words),
    decreases words.len(),
{
    if words.len() > 0 {
        assert(spec_ingest_buf(own, Seq::<u8>::empty(), words[0]) == Seq::<u8>::empty());
        assert forall|j: int| 0 <= j < words.skip(1).len() implies !spec_is_address_word(
            #[trigger] words.skip(1)[j],
        ) by {
            assert(words.skip(1)[j] == words[j + 1]);
        }
        lemma_data_words_keep_empty(slave, own, words.skip(1));
    }
}

/// A frame addressed to an unrelated node (no bit-subset match, not
/// broadcast) is ignored wholesale: its address word empties the buffer,
/// none of its bytes is retained, and no reply is ever produced.
pub proof fn lemma_foreign_frame_ignored(
    slave: bool,
    own: Address,
    buf0: Seq<u8>,
    words: Seq<u16>,
)
    requires
        words.len() > 0,
        spec_is_address_word(words[0]),
        !spec_addr_match(own, spec_word_addr(words[0])),
        forall|j: int| 1 <= j < words.len() ==> !spec_is_address_word(#[trigger] words[j]),
    ensures
        spec_run_buf(own, buf0, words) == Seq::<u8>::empty(),
        spec_run_silent(slave, own, buf0, words),
{
    assert(spec_ingest_buf(own, buf0, words[0]) == Seq::<u8>::empty());
    assert forall|j: int| 0 <= j < words.skip(1).len() implies !spec_is_address_word(
        #[trigger] words.skip(1)[j],
    ) by {
        assert(words.skip(1)[j] == words[j + 1]);
    }
    lemma_data_words_keep_empty(slave, own, words.skip(1));
}

/// A master-role node never emits an acknowledgement or a refusal,
/// whatever words arrive in whatever state.
pub proof fn lemma_master_never_replies(own: Address, buf0: Seq<u8>, words: Seq<u16>)
    ensures
        spec_run_silent(false, own, buf0, words),
    decreases words.len(),
{
    if words.len() > 0 {
        lemma_master_never_replies(own, spec_ingest_buf(own, buf0, words[0]), words.skip(1));
    }
}

/// Round-trip law: the data bytes of the word sequence `send` produces
/// for a payload decode back to a frame that carries exactly that payload
/// and a checksum that matches it, consuming every byte.
pub proof fn lemma_send_round_trip(address: Address, payload: Seq<u8>)
    requires
        payload.len() < MAX_APPDATA_LEN,
    ensures
        ({
            let bytes = spec_word_bytes(
                spec_frame_words(address, payload, crc16_usb_of(payload)),
            );
            match spec_parse_frame(bytes) {
                Some(pf) => pf.0.payload == payload && pf.0.checksum_matches() && pf.1
                    == bytes.len(),
                None => false,
            }
        }),
{
    lemma_frame_word_bytes(address, payload, crc16_usb_of(payload));
    lemma_parse_frame_bytes(address, payload, crc16_usb_of(payload));
}

/// A strict prefix of a frame's wire bytes does not yet decode: the parser
/// reports it incomplete rather than malformed.
pub proof fn lemma_parse_prefix_incomplete(address: Address, payload: Seq<u8>, crc: u16, k: int)
    requires
        payload.len() < MAX_APPDATA_LEN,
        0 <= k < spec_frame_bytes(address, payload, crc).len(),
    ensures
        spec_parse_frame(spec_frame_bytes(address, payload, crc).take(k)) is None,
{
    let bytes = spec_frame_bytes(address, payload, crc);
    let t = bytes.take(k);
    if k >= 2 {
        assert(t[1] == bytes[1]);
        assert(bytes[1] == payload.len() as u8);
        assert(t.len() < 4 + t[1]);
    }
}

} // verus!
