//! The payload codec: an ordered batch of packets in one wire text.
//!
//! The packets of a payload are joined by a single separator character.
//! Decoding splits on every separator and decodes each segment on its own;
//! the first segment that fails fails the whole payload.

use crate::armor::armor_round_trips;
use crate::packet::{
    lemma_packet_round_trip, lemma_packet_text_separator_free, packet_text,
    parse_packet, DataView, Packet, PacketParsingError, PacketView, PACKET_SEPARATOR,
};
use vstd::prelude::*;
use vstd::std_specs::convert::TryFromSpecImpl;
use vstd::string::*;

verus! {

/// Number of characters of `text` before its first separator; the whole
/// length where it holds none.
pub open spec fn head_len(text: Seq<char>) -> nat
    decreases text.len(),
{
    if text.len() == 0 || text[0] == PACKET_SEPARATOR {
        0
    } else {
        1 + head_len(text.skip(1))
    }
}

/// The segments of `text` between its separators, in order. A text of `n`
/// separators has `n + 1` segments, some of them possibly empty.
pub open spec fn segments(text: Seq<char>) -> Seq<Seq<char>>
    decreases text.len(),
{
    let n = head_len(text);
    if n >= text.len() {
        seq![text]
    } else {
        seq![text.take(n as int)] + segments(text.skip(n as int + 1))
    }
}

/// The segments decoded one by one, in order. The error of the first
/// segment that does not decode is the error of the whole.
pub open spec fn parse_segments(parts: Seq<Seq<char>>) -> Result<
    Seq<PacketView>,
    PacketParsingError,
>
    decreases parts.len(),
{
    if parts.len() == 0 {
        Ok(Seq::empty())
    } else {
        match parse_segments(parts.drop_last()) {
            Err(error) => Err(error),
            Ok(packets) => match parse_packet(parts.last()) {
                Ok(packet) => Ok(packets.push(packet)),
                Err(error) => Err(error),
            },
        }
    }
}

/// What a wire text decodes to as a payload.
pub open spec fn parse_payload(text: Seq<char>) -> Result<Seq<PacketView>, PacketParsingError> {
    parse_segments(segments(text))
}

/// The texts joined by single separators.
pub open spec fn join(texts: Seq<Seq<char>>) -> Seq<char>
    decreases texts.len(),
{
    if texts.len() == 0 {
        Seq::empty()
    } else if texts.len() == 1 {
        texts[0]
    } else {
        join(texts.drop_last()) + seq![PACKET_SEPARATOR] + texts.last()
    }
}

/// The wire texts of the packets, in order.
pub open spec fn packet_texts(packets: Seq<PacketView>) -> Seq<Seq<char>> {
    packets.map_values(|packet: PacketView| packet_text(packet))
}

/// The wire text of a payload.
pub open spec fn payload_text(packets: Seq<PacketView>) -> Seq<char> {
    join(packet_texts(packets))
}

/// `result` is what decoding `text` as a payload must give.
pub open spec fn payload_decodes_to(
    text: Seq<char>,
    result: Result<Payload, PacketParsingError>,
) -> bool {
    match result {
        Ok(payload) => parse_payload(text) == Ok::<Seq<PacketView>, PacketParsingError>(payload@),
        Err(error) => parse_payload(text) == Err::<Seq<PacketView>, PacketParsingError>(error),
    }
}

/// `head_len` stops at the first separator and nowhere before it.
pub proof fn lemma_head_len(text: Seq<char>)
    ensures
        head_len(text) <= text.len(),
        forall|i: int| 0 <= i < head_len(text) ==> text[i] != PACKET_SEPARATOR,
        head_len(text) < text.len() ==> text[head_len(text) as int] == PACKET_SEPARATOR,
        head_len(text) == text.len() <==> !text.contains(PACKET_SEPARATOR),
    decreases text.len(),
{
    if text.len() == 0 || text[0] == PACKET_SEPARATOR {
    } else {
        let rest = text.skip(1);
        lemma_head_len(rest);
        assert forall|i: int| 0 <= i < head_len(text) implies text[i] != PACKET_SEPARATOR by {
            if i > 0 {
                assert(rest[i - 1] == text[i]);
            }
        }
        if head_len(text) < text.len() {
            assert(rest[head_len(rest) as int] == text[head_len(text) as int]);
        }
        if rest.contains(PACKET_SEPARATOR) {
            let j = choose|j: int| 0 <= j < rest.len() && rest[j] == PACKET_SEPARATOR;
            assert(text[j + 1] == PACKET_SEPARATOR);
        }
        if text.contains(PACKET_SEPARATOR) {
            let j = choose|j: int| 0 <= j < text.len() && text[j] == PACKET_SEPARATOR;
            assert(rest[j - 1] == PACKET_SEPARATOR);
        }
    }
}

/// A text without separator is its own single segment.
pub proof fn lemma_segments_single(text: Seq<char>)
    requires
        !text.contains(PACKET_SEPARATOR),
    ensures
        segments(text) == seq![text],
{
    lemma_head_len(text);
}

/// The first segment of a text ends at its first separator.
pub proof fn lemma_segments_cons(head: Seq<char>, tail: Seq<char>)
    requires
        !head.contains(PACKET_SEPARATOR),
    ensures
        segments(head + seq![PACKET_SEPARATOR] + tail) == seq![head] + segments(tail),
{
    let text = head + seq![PACKET_SEPARATOR] + tail;
    lemma_head_len(text);
    let n = head_len(text);
    assert(text[head.len() as int] == PACKET_SEPARATOR);
    if n < head.len() {
        assert(head[n as int] == text[n as int]);
        assert(head.contains(PACKET_SEPARATOR));
    }
    assert(n == head.len());
    assert(text.take(n as int) =~= head);
    assert(text.skip(n as int + 1) =~= tail);
}

/// Splitting respects every separator: the segments of two texts joined by
/// a separator are the segments of the first, then those of the second.
pub proof fn lemma_segments_concat(first: Seq<char>, second: Seq<char>)
    ensures
        segments(first + seq![PACKET_SEPARATOR] + second) == segments(first) + segments(second),
    decreases first.len(),
{
    lemma_head_len(first);
    let n = head_len(first);
    if n >= first.len() {
        lemma_segments_cons(first, second);
    } else {
        let head = first.take(n as int);
        let rest = first.skip(n as int + 1);
        assert(!head.contains(PACKET_SEPARATOR)) by {
            if head.contains(PACKET_SEPARATOR) {
                let j = choose|j: int| 0 <= j < head.len() && head[j] == PACKET_SEPARATOR;
                assert(first[j] == PACKET_SEPARATOR);
            }
        }
        assert(first + seq![PACKET_SEPARATOR] + second =~= head + seq![PACKET_SEPARATOR] + (rest
            + seq![PACKET_SEPARATOR] + second));
        lemma_segments_cons(head, rest + seq![PACKET_SEPARATOR] + second);
        lemma_segments_concat(rest, second);
        assert(seq![head] + (segments(rest) + segments(second)) =~= (seq![head] + segments(rest))
            + segments(second));
    }
}

/// Splitting undoes joining, for at least one text and texts without
/// separator.
pub proof fn lemma_segments_of_join(texts: Seq<Seq<char>>)
    requires
        texts.len() > 0,
        forall|i: int| 0 <= i < texts.len() ==> !(#[trigger] texts[i]).contains(PACKET_SEPARATOR),
    ensures
        segments(join(texts)) == texts,
    decreases texts.len(),
{
    if texts.len() == 1 {
        lemma_segments_single(texts[0]);
        assert(texts =~= seq![texts[0]]);
    } else {
        let front = texts.drop_last();
        assert forall|i: int| 0 <= i < front.len() implies !(#[trigger] front[i]).contains(
            PACKET_SEPARATOR,
        ) by {
            assert(front[i] == texts[i]);
        }
        lemma_segments_of_join(front);
        lemma_segments_concat(join(front), texts.last());
        lemma_segments_single(texts.last());
        assert(front + seq![texts.last()] =~= texts);
    }
}

/// An error among the first segments is the error of the whole, whatever
/// follows.
pub proof fn lemma_parse_error_is_final(parts: Seq<Seq<char>>, more: Seq<Seq<char>>)
    requires
        parse_segments(parts) is Err,
    ensures
        parse_segments(parts + more) == parse_segments(parts),
    decreases more.len(),
{
    if more.len() == 0 {
        assert(parts + more =~= parts);
    } else {
        lemma_parse_error_is_final(parts, more.drop_last());
        assert((parts + more).drop_last() =~= parts + more.drop_last());
    }
}

/// A payload decodes exactly when each of its segments does, and then to
/// the packets of the segments in order.
pub proof fn lemma_parse_segments_ok(parts: Seq<Seq<char>>, packets: Seq<PacketView>)
    ensures
        parse_segments(parts) == Ok::<Seq<PacketView>, PacketParsingError>(packets) <==> (
        packets.len() == parts.len() && forall|i: int|
            0 <= i < parts.len() ==> parse_packet(#[trigger] parts[i]) == Ok::<
                PacketView,
                PacketParsingError,
            >(packets[i])),
    decreases parts.len(),
{
    if parts.len() == 0 {
        if packets.len() == 0 {
            assert(packets =~= Seq::<PacketView>::empty());
        }
    } else {
        let front = parts.drop_last();
        match parse_segments(front) {
            Err(_) => {
                if packets.len() == parts.len() && forall|i: int|
                    0 <= i < parts.len() ==> parse_packet(#[trigger] parts[i]) == Ok::<
                        PacketView,
                        PacketParsingError,
                    >(packets[i]) {
                    let shorter = packets.drop_last();
                    lemma_parse_segments_ok(front, shorter);
                    assert forall|i: int| 0 <= i < front.len() implies parse_packet(
                        #[trigger] front[i],
                    ) == Ok::<PacketView, PacketParsingError>(shorter[i]) by {
                        assert(front[i] == parts[i]);
                    }
                }
            },
            Ok(decoded) => {
                lemma_parse_segments_ok(front, decoded);
                if parse_segments(parts) == Ok::<Seq<PacketView>, PacketParsingError>(packets) {
                    assert forall|i: int| 0 <= i < parts.len() implies parse_packet(
                        #[trigger] parts[i],
                    ) == Ok::<PacketView, PacketParsingError>(packets[i]) by {
                        if i < front.len() {
                            assert(front[i] == parts[i]);
                        }
                    }
                }
                if packets.len() == parts.len() && forall|i: int|
                    0 <= i < parts.len() ==> parse_packet(#[trigger] parts[i]) == Ok::<
                        PacketView,
                        PacketParsingError,
                    >(packets[i]) {
                    assert(parse_packet(parts[parts.len() - 1]) == Ok::<
                        PacketView,
                        PacketParsingError,
                    >(packets[parts.len() - 1]));
                    assert forall|i: int| 0 <= i < front.len() implies decoded[i]
                        == packets[i] by {
                        assert(front[i] == parts[i]);
                    }
                    assert(decoded.push(packets.last()) =~= packets);
                }
            },
        }
    }
}

/// Decoding the wire text of a payload gives its packets back in order,
/// where the payload is not empty, each packet's own text decodes to the
/// packet, and no packet's text holds the separator.
pub proof fn lemma_payload_text_parses(packets: Seq<PacketView>)
    requires
        packets.len() > 0,
        forall|i: int|
            0 <= i < packets.len() ==> parse_packet(packet_text(#[trigger] packets[i])) == Ok::<
                PacketView,
                PacketParsingError,
            >(packets[i]),
        forall|i: int|
            0 <= i < packets.len() ==> !packet_text(#[trigger] packets[i]).contains(
                PACKET_SEPARATOR,
            ),
    ensures
        parse_payload(payload_text(packets)) == Ok::<Seq<PacketView>, PacketParsingError>(packets),
{
    let texts = packet_texts(packets);
    assert forall|i: int| 0 <= i < texts.len() implies !(#[trigger] texts[i]).contains(
        PACKET_SEPARATOR,
    ) by {
        assert(texts[i] == packet_text(packets[i]));
    }
    lemma_segments_of_join(texts);
    lemma_parse_segments_ok(texts, packets);
    assert forall|i: int| 0 <= i < texts.len() implies parse_packet(#[trigger] texts[i]) == Ok::<
        PacketView,
        PacketParsingError,
    >(packets[i]) by {
        assert(texts[i] == packet_text(packets[i]));
    }
}

/// Decoding the wire text of a payload gives the payload back, order
/// preserved. This holds of every payload of at least one well-formed
/// packet in which no text message holds the separator, provided that
/// base64 gives binary data back. The empty payload and text that holds the
/// separator are outside it: their wire texts decode to something else.
pub proof fn lemma_payload_round_trip(packets: Seq<PacketView>)
    requires
        packets.len() > 0,
        forall|i: int| 0 <= i < packets.len() ==> (#[trigger] packets[i]).wf(),
        forall|i: int| 0 <= i < packets.len() ==> (#[trigger] packets[i]).separator_free(),
        forall|i: int|
            0 <= i < packets.len() ==> ((#[trigger] packets[i]).data matches Some(
                DataView::Binary(bytes),
            ) ==> armor_round_trips(bytes)),
    ensures
        parse_payload(payload_text(packets)) == Ok::<Seq<PacketView>, PacketParsingError>(packets),
{
    assert forall|i: int| 0 <= i < packets.len() implies parse_packet(
        packet_text(#[trigger] packets[i]),
    ) == Ok::<PacketView, PacketParsingError>(packets[i]) && !packet_text(packets[i]).contains(
        PACKET_SEPARATOR,
    ) by {
        lemma_packet_round_trip(packets[i]);
        lemma_packet_text_separator_free(packets[i]);
    }
    lemma_payload_text_parses(packets);
}

/// The empty text has one empty segment, which is no packet.
pub proof fn lemma_empty_text_is_no_payload()
    ensures
        parse_payload(Seq::<char>::empty()) == Err::<Seq<PacketView>, PacketParsingError>(
            PacketParsingError::EmptyString,
        ),
{
    let parts = segments(Seq::<char>::empty());
    assert(parts =~= seq![Seq::<char>::empty()]);
    assert(parts.drop_last() =~= Seq::<Seq<char>>::empty());
    assert(parse_segments(parts.drop_last()) == Ok::<Seq<PacketView>, PacketParsingError>(
        Seq::empty(),
    ));
}

/// `str::split_once` with a character as the delimiter: the text before the
/// first occurrence of the delimiter and the text after it, or `None` where
/// the delimiter does not occur.
#[verifier::external_body]
fn split_once_at<'a>(text: &'a str, delimiter: char) -> (res: Option<(&'a str, &'a str)>)
    ensures
        match res {
            Some((head, tail)) => text@ == head@ + seq![delimiter] + tail@ && !head@.contains(
                delimiter,
            ),
            None => !text@.contains(delimiter),
        },
{
    text.split_once(delimiter)
}

/// An ordered batch of packets that share one wire transmission.
#[derive(Debug, PartialEq, Eq)]
pub struct Payload {
    packets: Vec<Packet>,
}

impl View for Payload {
    type V = Seq<PacketView>;

    closed spec fn view(&self) -> Seq<PacketView> {
        self.packets@.map_values(|packet: Packet| packet@)
    }
}

impl Clone for Payload {
    fn clone(&self) -> (res: Payload)
        ensures
            res@ == self@,
    {
        let mut packets: Vec<Packet> = Vec::new();
        let mut i: usize = 0;
        while i < self.packets.len()
            invariant
                i <= self.packets.len(),
                packets@.len() == i,
                forall|j: int| 0 <= j < i ==> (#[trigger] packets@[j])@ == self.packets@[j]@,
            decreases self.packets.len() - i,
        {
            packets.push(self.packets[i].clone());
            i += 1;
        }
        let res = Payload { packets };
        assert(res@ =~= self@);
        res
    }
}

impl Payload {
    /// The payload of the given packets, in their order.
    pub fn new(packets: Vec<Packet>) -> (payload: Payload)
        ensures
            payload@ == packets@.map_values(|packet: Packet| packet@),
    {
        Payload { packets }
    }

    /// Number of packets in the payload.
    pub fn len(&self) -> (len: usize)
        ensures
            len == self@.len(),
    {
        self.packets.len()
    }

    /// The packets of the payload, in wire order.
    pub fn packets(&self) -> (packets: &Vec<Packet>)
        ensures
            packets@.map_values(|packet: Packet| packet@) == self@,
    {
        &self.packets
    }

    /// Decodes a payload from its wire text. Either every segment decodes,
    /// and the payload holds their packets in wire order, or the error of
    /// the first segment that does not decode is returned and no packet is.
    pub fn decode(value: &str) -> (res: Result<Payload, PacketParsingError>)
        ensures
            payload_decodes_to(value@, res),
    {
        let mut packets: Vec<Packet> = Vec::new();
        let mut rest: &str = value;
        let ghost mut done: Seq<Seq<char>> = Seq::empty();
        proof {
            assert(done + segments(rest@) =~= segments(value@));
            assert(packets@.map_values(|packet: Packet| packet@) =~= Seq::<PacketView>::empty());
        }
        loop
            invariant
                segments(value@) == done + segments(rest@),
                parse_segments(done) == Ok::<Seq<PacketView>, PacketParsingError>(
                    packets@.map_values(|packet: Packet| packet@),
                ),
            decreases rest@.len(),
        {
            let ghost views = packets@.map_values(|packet: Packet| packet@);
            match split_once_at(rest, PACKET_SEPARATOR) {
                Some((head, tail)) => {
                    proof {
                        lemma_segments_cons(head@, tail@);
                        assert(done + (seq![head@] + segments(tail@)) =~= done.push(head@)
                            + segments(tail@));
                        assert(done.push(head@).drop_last() =~= done);
                    }
                    match Packet::decode(head) {
                        Ok(packet) => {
                            packets.push(packet);
                            proof {
                                done = done.push(head@);
                                assert(packets@.map_values(|packet: Packet| packet@) =~= views.push(
                                    packet@,
                                ));
                            }
                            rest = tail;
                        },
                        Err(error) => {
                            proof {
                                lemma_parse_error_is_final(done.push(head@), segments(tail@));
                            }
                            return Err(error);
                        },
                    }
                },
                None => {
                    proof {
                        lemma_segments_single(rest@);
                        assert(done + seq![rest@] =~= done.push(rest@));
                        assert(done.push(rest@).drop_last() =~= done);
                    }
                    match Packet::decode(rest) {
                        Ok(packet) => {
                            packets.push(packet);
                            proof {
                                assert(packets@.map_values(|packet: Packet| packet@) =~= views.push(
                                    packet@,
                                ));
                            }
                            return Ok(Payload { packets });
                        },
                        Err(error) => {
                            return Err(error);
                        },
                    }
                },
            }
        }
    }

    /// Encodes the payload as wire text: the texts of its packets in order,
    /// joined by the separator. Decoding that text gives the payload back,
    /// unless the payload is empty or one of its text messages holds the
    /// separator.
    pub fn encode(&self) -> (text: String)
        ensures
            text@ == payload_text(self@),
            self@.len() > 0 && (forall|i: int|
                0 <= i < self@.len() ==> (#[trigger] self@[i]).separator_free()) ==> parse_payload(
                text@,
            ) == Ok::<Seq<PacketView>, PacketParsingError>(self@),
    {
        let mut text = String::new();
        let mut i: usize = 0;
        proof {
            reveal_strlit("\u{1e}");
            assert(packet_texts(self@.take(0)) =~= Seq::<Seq<char>>::empty());
        }
        while i < self.packets.len()
            invariant
                i <= self.packets.len(),
                self@.len() == self.packets.len(),
                text@ == join(packet_texts(self@.take(i as int))),
                forall|j: int|
                    0 <= j < i ==> parse_packet(packet_text(#[trigger] self@[j])) == Ok::<
                        PacketView,
                        PacketParsingError,
                    >(self@[j]),
                forall|j: int|
                    0 <= j < i ==> ((#[trigger] self@[j]).separator_free() ==> !packet_text(
                        self@[j],
                    ).contains(PACKET_SEPARATOR)),
            decreases self.packets.len() - i,
        {
            if i > 0 {
                let separator = "\u{1e}";
                proof {
                    reveal_strlit("\u{1e}");
                    assert(separator@ =~= seq![PACKET_SEPARATOR]);
                }
                text.append(separator);
            }
            let piece = self.packets[i].encode();
            text.append(piece.as_str());
            proof {
                let before = packet_texts(self@.take(i as int));
                let after = packet_texts(self@.take(i + 1));
                assert(self@[i as int] == self.packets@[i as int]@);
                assert(after.drop_last() =~= before);
                assert(after.last() == packet_text(self@[i as int]));
            }
            i += 1;
        }
        proof {
            assert(self@.take(i as int) =~= self@);
            if self@.len() > 0 && (forall|i: int|
                0 <= i < self@.len() ==> (#[trigger] self@[i]).separator_free()) {
                lemma_payload_text_parses(self@);
            }
        }
        text
    }
}

impl<'a> TryFrom<&'a str> for Payload {
    type Error = PacketParsingError;

    /// Decodes a payload from its wire text, as [`Payload::decode`] does.
    fn try_from(value: &'a str) -> (res: Result<Payload, PacketParsingError>)
        ensures
            payload_decodes_to(value@, res),
    {
        Payload::decode(value)
    }
}

impl<'a> TryFromSpecImpl<&'a str> for Payload {
    /// The result is fixed by its view, in the `ensures` of `try_from`.
    open spec fn obeys_try_from_spec() -> bool {
        false
    }

    open spec fn try_from_spec(value: &'a str) -> Result<Payload, PacketParsingError> {
        arbitrary()
    }
}

} // verus!
