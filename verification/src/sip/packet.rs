//! SIP packets, as far as the core looks into them.

use vstd::prelude::*;

use crate::text::decimal_text;

verus! {

/// The name of a header.
#[derive(Clone, Copy, Debug, PartialEq, Eq, Structural)]
pub enum HeaderName {
    ContentLength,
    /// A header that the core does not look at, by its position in the packet as it
    /// was received.
    Other(usize),
}

/// A header of a packet.
#[derive(Debug)]
pub struct Header {
    pub name: HeaderName,
    pub value: String,
}

/// The name of a header and the characters of its value.
#[verifier::ext_equal]
pub struct HeaderView {
    pub name: HeaderName,
    pub value: Seq<char>,
}

impl View for Header {
    type V = HeaderView;

    open spec fn view(&self) -> HeaderView {
        HeaderView { name: self.name, value: self.value@ }
    }
}

/// The method of a request.
#[derive(Debug)]
pub enum Method {
    Invite,
    /// Any other method, by its name.
    Other(String),
}

impl Method {
    /// The name of a method on the wire.
    pub open spec fn name(self) -> Seq<char> {
        match self {
            Method::Invite => "INVITE"@,
            Method::Other(name) => name@,
        }
    }
}

/// A parsed SIP packet. `method` means something on requests only, `status_code` on
/// responses only.
#[derive(Debug)]
pub struct SipPacket {
    pub is_request: bool,
    pub method: Method,
    pub status_code: u16,
    pub call_id: Option<String>,
    pub headers: Vec<Header>,
    pub body: Vec<u8>,
}

/// The headers of a list, with their values as characters.
pub open spec fn header_views(headers: Seq<Header>) -> Seq<HeaderView> {
    headers.map_values(|h: Header| h@)
}

/// Whether a header is not the Content-Length.
pub open spec fn is_not_length() -> spec_fn(HeaderView) -> bool {
    |h: HeaderView| h.name != HeaderName::ContentLength
}

/// The headers with one Content-Length, at the end, which says `length`.
pub open spec fn with_content_length(headers: Seq<HeaderView>, length: nat) -> Seq<HeaderView> {
    headers.filter(is_not_length()).push(
        HeaderView { name: HeaderName::ContentLength, value: crate::text::decimal(length) },
    )
}

impl SipPacket {
    /// How a packet is called in records: a request by its method, a response by its
    /// status code.
    pub open spec fn label_text(self) -> Seq<char> {
        if self.is_request {
            self.method.name()
        } else {
            "RESPONSE/"@ + crate::text::decimal(self.status_code as nat)
        }
    }

    /// Whether the packet is a request that opens a call.
    pub open spec fn opens_call(self) -> bool {
        self.is_request && self.method is Invite
    }

    /// How the packet is called in records.
    pub fn label(&self) -> (label: String)
        ensures
            label@ == self.label_text(),
    {
        if self.is_request {
            match &self.method {
                Method::Invite => "INVITE".to_owned(),
                Method::Other(name) => name.clone(),
            }
        } else {
            "RESPONSE/".to_owned().concat(decimal_text(self.status_code as u64).as_str())
        }
    }

    /// Puts a new body into the packet, with a Content-Length that fits it.
    pub fn replace_body(&mut self, body: Vec<u8>)
        ensures
            final(self).body == body,
            header_views(final(self).headers@) == with_content_length(
                header_views(old(self).headers@),
                body@.len(),
            ),
            final(self).is_request == old(self).is_request,
            final(self).method == old(self).method,
            final(self).status_code == old(self).status_code,
            final(self).call_id == old(self).call_id,
    {
        let length = decimal_text(body.len() as u64);
        self.body = body;
        let ghost before = header_views(self.headers@);
        let ghost mut seen: int = 0;
        let mut kept: usize = 0;
        proof {
            assert(before.take(0) =~= Seq::empty());
            assert(before.skip(0) =~= before);
            assert(header_views(self.headers@).take(0) =~= Seq::empty());
        }
        while kept < self.headers.len()
            invariant
                kept <= self.headers.len(),
                0 <= seen <= before.len(),
                seen + self.headers.len() == before.len() + kept,
                header_views(self.headers@).take(kept as int) == before.take(seen).filter(
                    is_not_length(),
                ),
                header_views(self.headers@).skip(kept as int) == before.skip(seen),
                self.body == body,
                self.is_request == old(self).is_request,
                self.method == old(self).method,
                self.status_code == old(self).status_code,
                self.call_id == old(self).call_id,
            decreases self.headers.len() - kept,
        {
            let ghost now = header_views(self.headers@);
            proof {
                assert(now.skip(kept as int)[0] == before.skip(seen)[0]);
                assert(before.take(seen + 1).drop_last() =~= before.take(seen));
                reveal_with_fuel(Seq::filter, 2);
            }
            if self.headers[kept].name == HeaderName::ContentLength {
                let _ = self.headers.remove(kept);
                proof {
                    let after = header_views(self.headers@);
                    assert(after.take(kept as int) =~= now.take(kept as int));
                    assert(after.skip(kept as int) =~= now.skip(kept as int).skip(1));
                    assert(before.skip(seen).skip(1) =~= before.skip(seen + 1));
                }
            } else {
                kept = kept + 1;
                proof {
                    assert(now.take(kept as int) =~= now.take(kept - 1).push(now[kept - 1]));
                    assert(now.skip(kept as int) =~= now.skip(kept - 1).skip(1));
                    assert(before.skip(seen).skip(1) =~= before.skip(seen + 1));
                }
            }
            proof {
                seen = seen + 1;
            }
        }
        proof {
            assert(before.take(seen) =~= before);
            assert(header_views(self.headers@).take(kept as int) =~= header_views(self.headers@));
        }
        self.headers.push(Header { name: HeaderName::ContentLength, value: length });
        assert(header_views(self.headers@) =~= with_content_length(before, body@.len()));
    }
}

/// A packet whose body was replaced has exactly one Content-Length header, the last
/// one, and it reads back as the length of the body.
pub proof fn law_content_length_fits(headers: Seq<HeaderView>, length: nat)
    ensures
        ({
            let after = with_content_length(headers, length);
            &&& after.len() > 0
            &&& after.last().name == HeaderName::ContentLength
            &&& crate::text::decimal_value(after.last().value) == length
            &&& forall|i: int|
                0 <= i < after.len() - 1 ==> (#[trigger] after[i]).name != HeaderName::ContentLength
        }),
{
    crate::text::law_decimal_reads_back(length);
    let kept = headers.filter(is_not_length());
    assert forall|i: int| 0 <= i < kept.len() implies (#[trigger] kept[i]).name
        != HeaderName::ContentLength by {
        headers.lemma_filter_pred(is_not_length(), i);
    }
}

/// Fitting a second length forgets the first.
pub proof fn law_content_length_replaces(headers: Seq<HeaderView>, first: nat, second: nat)
    ensures
        with_content_length(with_content_length(headers, first), second) == with_content_length(
            headers,
            second,
        ),
{
    let kept = headers.filter(is_not_length());
    let once = with_content_length(headers, first);
    assert(once.drop_last() =~= kept);
    reveal(Seq::filter);
    assert forall|i: int| 0 <= i < kept.len() implies is_not_length()(#[trigger] kept[i]) by {
        headers.lemma_filter_pred(is_not_length(), i);
    }
    lemma_filter_of_kept(kept);
}

/// A list in which every header is kept is its own filtered list.
proof fn lemma_filter_of_kept(headers: Seq<HeaderView>)
    requires
        forall|i: int| 0 <= i < headers.len() ==> is_not_length()(#[trigger] headers[i]),
    ensures
        headers.filter(is_not_length()) == headers,
    decreases headers.len(),
{
    reveal(Seq::filter);
    if headers.len() > 0 {
        lemma_filter_of_kept(headers.drop_last());
        assert(headers.drop_last().push(headers.last()) =~= headers);
    }
}

/// The headers keep what they hold: each is listed with its own name and value, in its own
/// place.
pub proof fn law_headers_are_listed_as_they_are(headers: Seq<Header>)
    ensures
        header_views(headers).len() == headers.len(),
        forall|i: int|
            0 <= i < headers.len() ==> {
                &&& (#[trigger] header_views(headers)[i]).name == headers[i].name
                &&& header_views(headers)[i].value == headers[i].value@
            },
{
}

/// Fitting a length keeps every header but the Content-Lengths, with its value and in its
/// order: a Content-Length makes no difference, any other header stands last before the
/// new Content-Length if it was the last one, and without headers the new one stands
/// alone.
pub proof fn law_other_headers_keep_their_order(
    headers: Seq<HeaderView>,
    header: HeaderView,
    length: nat,
)
    ensures
        ({
            let fitted = HeaderView {
                name: HeaderName::ContentLength,
                value: crate::text::decimal(length),
            };
            let before = with_content_length(headers, length);
            let after = with_content_length(headers.push(header), length);
            &&& with_content_length(Seq::empty(), length) == seq![fitted]
            &&& before.last() == fitted
            &&& header.name == HeaderName::ContentLength ==> after == before
            &&& header.name != HeaderName::ContentLength ==> after == before.drop_last().push(
                header,
            ).push(fitted)
        }),
{
    reveal(Seq::filter);
    let longer = headers.push(header);
    let fitted = HeaderView {
        name: HeaderName::ContentLength,
        value: crate::text::decimal(length),
    };
    assert(longer.drop_last() =~= headers);
    assert(longer.last() == header);
    assert(with_content_length(headers, length).drop_last() =~= headers.filter(is_not_length()));
    assert(Seq::<HeaderView>::empty().filter(is_not_length()) =~= Seq::<HeaderView>::empty());
    assert(with_content_length(Seq::empty(), length) =~= seq![fitted]);
}

/// A packet with a new body has that body, all of it, and the Content-Length that goes
/// with it; what kind of packet it is and which call it belongs to stay as they were.
pub proof fn law_new_body_changes_only_body_and_length(packet: &mut SipPacket, body: Vec<u8>)
    requires
        call_ensures(SipPacket::replace_body, (packet, body), ()),
    ensures
        final(packet).body@ == body@,
        header_views(final(packet).headers@) == with_content_length(
            header_views(old(packet).headers@),
            body@.len(),
        ),
        final(packet).headers@.len() > 0,
        final(packet).headers@.last().name == HeaderName::ContentLength,
        crate::text::decimal_value(final(packet).headers@.last().value@) == body@.len(),
        forall|i: int|
            0 <= i < final(packet).headers@.len() - 1 ==> (
            #[trigger] final(packet).headers@[i]).name != HeaderName::ContentLength,
        final(packet).is_request == old(packet).is_request,
        final(packet).method == old(packet).method,
        final(packet).status_code == old(packet).status_code,
        final(packet).call_id == old(packet).call_id,
{
    let after = header_views(final(packet).headers@);
    law_content_length_fits(header_views(old(packet).headers@), body@.len());
    assert(after.len() == final(packet).headers@.len());
    assert(after.last() == final(packet).headers@.last()@);
    assert forall|i: int| 0 <= i < final(packet).headers@.len() - 1 implies (
    #[trigger] final(packet).headers@[i]).name != HeaderName::ContentLength by {
        assert(after[i] == final(packet).headers@[i]@);
    }
}

/// A request is called by its method's name, and a response by its status code, whichever
/// it is: the number after the slash reads back as the code.
pub proof fn law_label_names_method_or_status(packet: SipPacket, label: String)
    requires
        call_ensures(SipPacket::label, (&packet,), label),
    ensures
        packet.is_request && packet.method is Invite ==> label@ == seq![
            'I',
            'N',
            'V',
            'I',
            'T',
            'E',
        ],
        packet.is_request ==> (packet.method matches Method::Other(name) ==> label@ == name@),
        !packet.is_request ==> {
            &&& label@.len() > 9
            &&& label@.take(9) == seq!['R', 'E', 'S', 'P', 'O', 'N', 'S', 'E', '/']
            &&& label@.skip(9) == crate::text::decimal(packet.status_code as nat)
            &&& crate::text::parsed_u16(label@.skip(9)) == Some(packet.status_code)
        },
{
    reveal_strlit("INVITE");
    reveal_strlit("RESPONSE/");
    if packet.is_request {
        if packet.method is Invite {
            assert(label@ =~= seq!['I', 'N', 'V', 'I', 'T', 'E']);
        }
    } else {
        crate::text::law_decimal_reads_back(packet.status_code as nat);
        assert(label@.take(9) =~= "RESPONSE/"@);
        assert(label@.skip(9) =~= crate::text::decimal(packet.status_code as nat));
    }
}

} // verus!
