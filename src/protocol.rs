use vstd::prelude::*;

use crate::info::Kind;
use crate::util::{device_key_index, mirabox_extend_packet, spec_device_key_index, spec_report_length};

verus! {

/// Preamble shared by every command: report id, "CRT", two zero bytes.
pub open spec fn crt_preamble() -> Seq<u8> {
    seq![0x00u8, 0x43, 0x52, 0x54, 0x00, 0x00]
}

/// `n` zero bytes.
pub open spec fn zeros(n: nat) -> Seq<u8> {
    Seq::new(n, |i: int| 0u8)
}

/// A command report: the preamble, the command's bytes, then zeros up to
/// the report length of the device.
pub open spec fn spec_command(kind: &Kind, body: Seq<u8>) -> Seq<u8> {
    let head = crt_preamble() + body;
    head + zeros((spec_report_length(kind) - head.len()) as nat)
}

/// Builds a command report from the bytes that follow the preamble.
pub fn command_report(kind: &Kind, body: &[u8]) -> (r: Vec<u8>)
    requires
        6 + body@.len() <= spec_report_length(kind),
    ensures
        r@ == spec_command(kind, body@),
        r@.len() == spec_report_length(kind),
{
    let mut buf: Vec<u8> = vec![0x00, 0x43, 0x52, 0x54, 0x00, 0x00];
    assert(buf@ =~= crt_preamble());
    let mut i: usize = 0;
    while i < body.len()
        invariant
            i <= body@.len(),
            buf@ == crt_preamble() + body@.subrange(0, i as int),
        decreases body@.len() - i,
    {
        buf.push(body[i]);
        i = i + 1;
        assert(buf@ =~= crt_preamble() + body@.subrange(0, i as int));
    }
    assert(body@.subrange(0, body@.len() as int) =~= body@);
    mirabox_extend_packet(kind, &mut buf);
    buf
}

/// Sizes of the reports that carry image data.
#[derive(Clone, Copy, Debug, PartialEq, Eq, Structural)]
pub struct WriteImageParameters {
    /// Length of a whole report
    pub image_report_length: usize,
    /// Number of image bytes that one report carries
    pub image_report_payload_length: usize,
}

impl WriteImageParameters {
    /// Report sizes for image data sent to a device of the given kind: each
    /// report is one report-id byte followed by image bytes.
    pub fn for_key(kind: Kind, image_data_len: usize) -> (r: Self)
        ensures
            r.image_report_length == spec_report_length(&kind),
            r.image_report_payload_length == r.image_report_length - 1,
    {
        let image_report_length: usize = if kind.is_v1_api() {
            513
        } else {
            1025
        };
        let image_report_header_length: usize = 1;
        let image_report_payload_length = image_report_length - image_report_header_length;
        WriteImageParameters { image_report_length, image_report_payload_length }
    }
}

/// The pages that a payload is cut into: consecutive pieces of `size`
/// bytes, the last one shorter when the length is no multiple of `size`.
pub open spec fn pages(data: Seq<u8>, size: nat) -> Seq<Seq<u8>>
    decreases data.len(),
{
    if data.len() == 0 || size == 0 {
        Seq::empty()
    } else if data.len() <= size {
        seq![data]
    } else {
        seq![data.subrange(0, size as int)] + pages(data.subrange(size as int, data.len() as int), size)
    }
}

/// One data report: the header, a page of data, then zeros up to `length`.
pub open spec fn data_report(header: Seq<u8>, page: Seq<u8>, length: nat) -> Seq<u8> {
    header + page + zeros((length - header.len() - page.len()) as nat)
}

/// The reports that carry a payload, one per page.
pub open spec fn spec_data_reports(
    data: Seq<u8>,
    parameters: WriteImageParameters,
    header: Seq<u8>,
) -> Seq<Seq<u8>> {
    let ps = pages(data, parameters.image_report_payload_length as nat);
    Seq::new(
        ps.len(),
        |k: int| data_report(header, ps[k], parameters.image_report_length as nat),
    )
}

/// The byte contents of a list of reports.
pub open spec fn report_bytes(reports: Seq<Vec<u8>>) -> Seq<Seq<u8>> {
    reports.map_values(|r: Vec<u8>| r@)
}

/// Cutting the rest of a payload after a first page.
proof fn lemma_pages_step(data: Seq<u8>, size: nat)
    requires
        data.len() > 0,
        size > 0,
    ensures
        pages(data, size) == seq![data.subrange(0, if data.len() <= size { data.len() as int } else { size as int })]
            + pages(data.subrange(if data.len() <= size { data.len() as int } else { size as int }, data.len() as int), size),
{
    if data.len() <= size {
        let rest = data.subrange(data.len() as int, data.len() as int);
        assert(rest.len() == 0);
        assert(pages(rest, size) =~= Seq::<Seq<u8>>::empty());
        assert(data.subrange(0, data.len() as int) =~= data);
        assert(seq![data] + Seq::<Seq<u8>>::empty() =~= seq![data]);
    }
}

/// Whether page `k` of `count` pages is the last one.
pub open spec fn is_last_page(k: int, count: int) -> bool {
    k == count - 1
}

/// A payload of more than `size` bytes is cut into more than one page.
proof fn lemma_pages_last(data: Seq<u8>, size: nat)
    requires
        data.len() > 0,
        size > 0,
    ensures
        pages(data, size).len() >= 1,
        pages(data, size).len() == 1 <==> data.len() <= size,
    decreases data.len(),
{
    if data.len() > size {
        lemma_pages_last(data.subrange(size as int, data.len() as int), size);
    }
}

/// Splits a payload into data reports of `parameters.image_report_length`
/// bytes each. Report `k` starts with what `header_fn` returns for page
/// number `k`, the length of that page and whether it is the last one;
/// then comes the page, then zero padding.
pub fn write_image_data_reports<F: Fn(usize, usize, bool) -> Vec<u8>>(
    image_data: &[u8],
    parameters: WriteImageParameters,
    header_fn: F,
) -> (r: Vec<Vec<u8>>)
    requires
        parameters.image_report_payload_length > 0,
        forall|p: usize, l: usize, last: bool| #[trigger] header_fn.requires((p, l, last)),
        forall|p: usize, l: usize, last: bool, h: Vec<u8>|
            #[trigger] header_fn.ensures((p, l, last), h) ==> h@.len()
                + parameters.image_report_payload_length <= parameters.image_report_length,
    ensures
        r@.len() == pages(image_data@, parameters.image_report_payload_length as nat).len(),
        forall|k: int|
            #![trigger r@[k]]
            0 <= k < r@.len() ==> r@[k]@.len() == parameters.image_report_length && exists|h: Vec<u8>|
                #[trigger] header_fn.ensures(
                    (
                        k as usize,
                        pages(image_data@, parameters.image_report_payload_length as nat)[k].len() as usize,
                        is_last_page(k, r@.len() as int),
                    ),
                    h,
                ) && r@[k]@ == data_report(
                    h@,
                    pages(image_data@, parameters.image_report_payload_length as nat)[k],
                    parameters.image_report_length as nat,
                ),
{
    let report_length = parameters.image_report_length;
    let page_length = parameters.image_report_payload_length;
    let ghost size = page_length as nat;
    let ghost all = pages(image_data@, size);
    let mut reports: Vec<Vec<u8>> = Vec::new();
    let mut sent: usize = 0;
    let mut page_number: usize = 0;
    let mut done: Ghost<Seq<Seq<u8>>> = Ghost(Seq::empty());
    let mut headers: Ghost<Seq<Vec<u8>>> = Ghost(Seq::empty());
    assert(image_data@.subrange(0, image_data@.len() as int) =~= image_data@);
    assert(done@ + all =~= all);
    while sent < image_data.len()
        invariant
            size == page_length,
            page_length > 0,
            report_length == parameters.image_report_length,
            all == pages(image_data@, size),
            forall|p: usize, l: usize, last: bool| #[trigger] header_fn.requires((p, l, last)),
            forall|p: usize, l: usize, last: bool, h: Vec<u8>|
                #[trigger] header_fn.ensures((p, l, last), h) ==> h@.len() + page_length
                    <= report_length,
            sent <= image_data@.len(),
            page_number == done@.len(),
            page_number <= sent,
            done@ + pages(image_data@.subrange(sent as int, image_data@.len() as int), size) == all,
            reports@.len() == done@.len(),
            headers@.len() == done@.len(),
            forall|k: int|
                0 <= k < done@.len() ==> #[trigger] header_fn.ensures(
                    (k as usize, done@[k].len() as usize, is_last_page(k, all.len() as int)),
                    headers@[k],
                ),
            forall|k: int|
                0 <= k < done@.len() ==> #[trigger] reports@[k]@ == data_report(
                    headers@[k]@,
                    done@[k],
                    report_length as nat,
                ) && reports@[k]@.len() == report_length,
        decreases image_data@.len() - sent,
    {
        let total = image_data.len();
        let remaining = total - sent;
        let this_length = if remaining < page_length {
            remaining
        } else {
            page_length
        };
        let ghost rest = image_data@.subrange(sent as int, image_data@.len() as int);
        proof {
            lemma_pages_step(rest, size);
            lemma_pages_last(rest, size);
        }
        let is_last = this_length == remaining;
        assert(is_last == is_last_page(done@.len() as int, all.len() as int)) by {
            assert(all.len() == done@.len() + pages(rest, size).len());
        }
        let header = header_fn(page_number, this_length, is_last);
        assert(this_length > 0);
        let mut buf: Vec<u8> = Vec::new();
        let mut j: usize = 0;
        while j < header.len()
            invariant
                j <= header@.len(),
                buf@ == header@.subrange(0, j as int),
            decreases header@.len() - j,
        {
            buf.push(header[j]);
            j = j + 1;
            assert(buf@ =~= header@.subrange(0, j as int));
        }
        assert(header@.subrange(0, header@.len() as int) =~= header@);
        let mut j: usize = 0;
        while j < this_length
            invariant
                j <= this_length,
                total == image_data@.len(),
                sent + this_length <= total,
                buf@ == header@ + image_data@.subrange(sent as int, sent + j),
            decreases this_length - j,
        {
            assert(sent + j < image_data@.len());
            buf.push(image_data[sent + j]);
            j = j + 1;
            assert(buf@ =~= header@ + image_data@.subrange(sent as int, sent + j));
        }
        let ghost page = image_data@.subrange(sent as int, sent + this_length);
        assert(page =~= rest.subrange(0, this_length as int));
        while buf.len() < report_length
            invariant
                header@.len() + this_length <= report_length,
                header@.len() + this_length <= buf@.len() <= report_length,
                buf@ == header@ + page + zeros((buf@.len() - header@.len() - this_length) as nat),
            decreases report_length - buf@.len(),
        {
            buf.push(0u8);
            assert(buf@ =~= header@ + page + zeros((buf@.len() - header@.len() - this_length) as nat));
        }
        assert(buf@ == data_report(header@, page, report_length as nat));
        assert(buf@.len() == report_length);
        let ghost old_reports = reports@;
        let ghost old_headers = headers@;
        reports.push(buf);
        proof {
            let next = image_data@.subrange((sent + this_length) as int, image_data@.len() as int);
            assert(next =~= rest.subrange(this_length as int, rest.len() as int));
            assert(done@ + pages(rest, size) =~= done@.push(page) + pages(next, size));
            let ghost old_done = done@;
            done@ = done@.push(page);
            headers@ = headers@.push(header);
            assert forall|k: int| 0 <= k < done@.len() implies #[trigger] header_fn.ensures(
                (k as usize, done@[k].len() as usize, is_last_page(k, all.len() as int)),
                headers@[k],
            ) by {
                if k < old_done.len() {
                    assert(done@[k] == old_done[k]);
                    assert(headers@[k] == old_headers[k]);
                } else {
                    assert(done@[k] == page);
                    assert(headers@[k] == header);
                }
            }
            assert forall|k: int| 0 <= k < done@.len() implies #[trigger] reports@[k]@ == data_report(
                headers@[k]@,
                done@[k],
                report_length as nat,
            ) && reports@[k]@.len() == report_length by {
                if k < old_done.len() {
                    assert(done@[k] == old_done[k]);
                    assert(reports@[k] == old_reports[k]);
                    assert(headers@[k] == old_headers[k]);
                } else {
                    assert(done@[k] == page);
                    assert(headers@[k] == header);
                }
            }
        }
        sent = sent + this_length;
        page_number = page_number + 1;
    }
    proof {
        let rest = image_data@.subrange(sent as int, image_data@.len() as int);
        assert(rest.len() == 0);
        assert(pages(rest, size) =~= Seq::<Seq<u8>>::empty());
        assert(done@ + pages(rest, size) =~= done@);
        assert(done@ == all);
    }
    assert forall|k: int|
            #![trigger reports@[k]]
            0 <= k < reports@.len() implies reports@[k]@.len() == parameters.image_report_length && exists|h: Vec<u8>|
                #[trigger] header_fn.ensures(
                    (
                        k as usize,
                        pages(image_data@, parameters.image_report_payload_length as nat)[k].len() as usize,
                        is_last_page(k, reports@.len() as int),
                    ),
                    h,
                ) && reports@[k]@ == data_report(
                    h@,
                    pages(image_data@, parameters.image_report_payload_length as nat)[k],
                    parameters.image_report_length as nat,
                ) by {
            assert(done@[k] == all[k]);
            assert(header_fn.ensures(
                (k as usize, done@[k].len() as usize, is_last_page(k, all.len() as int)),
                headers@[k],
            ));
            assert(reports@[k]@ == data_report(headers@[k]@, done@[k], report_length as nat));
            let h = headers@[k];
            assert(header_fn.ensures(
                (
                    k as usize,
                    pages(image_data@, parameters.image_report_payload_length as nat)[k].len() as usize,
                    is_last_page(k, reports@.len() as int),
                ),
                h,
            ));
        }
    assert(forall|k: int| #![trigger reports@[k]] 0 <= k < reports@.len() ==> reports@[k]@.len() == parameters.image_report_length);
    assert(reports@.len() == pages(image_data@, parameters.image_report_payload_length as nat).len());
    reports
}

/// The data reports of a payload, each starting with a zero report-id byte.
pub fn zero_header_data_reports(image_data: &[u8], parameters: WriteImageParameters) -> (r: Vec<Vec<u8>>)
    requires
        parameters.image_report_payload_length > 0,
        1 + parameters.image_report_payload_length <= parameters.image_report_length,
    ensures
        report_bytes(r@) == spec_data_reports(image_data@, parameters, seq![0x00u8]),
{
    let zero_header = |page_number: usize, this_length: usize, last: bool| -> (h: Vec<u8>)
        ensures
            h@ == seq![0x00u8],
        {
            let h: Vec<u8> = vec![0x00];
            assert(h@ =~= seq![0x00u8]);
            h
        };
    let r = write_image_data_reports(image_data, parameters, zero_header);
    let ghost ps = pages(image_data@, parameters.image_report_payload_length as nat);
    assert forall|k: int| 0 <= k < r@.len() implies report_bytes(r@)[k] == spec_data_reports(
        image_data@,
        parameters,
        seq![0x00u8],
    )[k] by {
        let h = choose|h: Vec<u8>|
            #[trigger] zero_header.ensures((k as usize, ps[k].len() as usize, is_last_page(k, r@.len() as int)), h)
                && r@[k]@ == data_report(h@, ps[k], parameters.image_report_length as nat);
        assert(h@ == seq![0x00u8]);
    }
    assert(report_bytes(r@) =~= spec_data_reports(image_data@, parameters, seq![0x00u8]));
    r
}

/// Cutting a payload of length L into pages of size P gives ceil(L / P)
/// pages; every page but the last holds P bytes, the last one between 1
/// and P; and the pages joined in order give back the payload.
pub proof fn lemma_pages_reassemble(data: Seq<u8>, size: nat)
    requires
        size > 0,
    ensures
        pages(data, size).len() == (data.len() + size - 1) / size as int,
        pages(data, size).flatten() == data,
        forall|k: int|
            0 <= k < pages(data, size).len() ==> 0 < #[trigger] pages(data, size)[k].len() <= size,
        forall|k: int|
            0 <= k < pages(data, size).len() - 1 ==> #[trigger] pages(data, size)[k].len() == size,
    decreases data.len(),
{
    let ps = pages(data, size);
    if data.len() == 0 {
        vstd::arithmetic::div_mod::lemma_basic_div((size - 1) as int, size as int);
    } else if data.len() <= size {
        assert((data.len() + size - 1) / size as int == 1) by {
            vstd::arithmetic::div_mod::lemma_div_plus_one((data.len() - 1) as int, size as int);
            vstd::arithmetic::div_mod::lemma_basic_div((data.len() - 1) as int, size as int);
        }
        assert(ps.drop_first() =~= Seq::<Seq<u8>>::empty());
        assert(ps.first() == data);
        assert(ps.drop_first().flatten() == Seq::<u8>::empty());
        assert(ps.flatten() =~= data);
    } else {
        let first = data.subrange(0, size as int);
        let rest = data.subrange(size as int, data.len() as int);
        lemma_pages_reassemble(rest, size);
        let tail = pages(rest, size);
        assert(ps == seq![first] + tail);
        assert(ps.drop_first() =~= tail);
        assert((data.len() + size - 1) / size as int == 1 + (rest.len() + size - 1) / size as int) by {
            vstd::arithmetic::div_mod::lemma_div_plus_one((rest.len() + size - 1) as int, size as int);
        }
        assert(ps.flatten() == first + tail.flatten());
        assert(first + rest =~= data);
        assert forall|k: int| 0 <= k < ps.len() implies 0 < #[trigger] ps[k].len() <= size by {
            if k > 0 {
                assert(ps[k] == tail[k - 1]);
            }
        }
        assert forall|k: int| 0 <= k < ps.len() - 1 implies #[trigger] ps[k].len() == size by {
            if k > 0 {
                assert(ps[k] == tail[k - 1]);
            }
        }
    }
}

/// Every data report has exactly the report length, and holds its header,
/// then its page of the payload, then zero padding.
pub proof fn lemma_data_reports_shape(
    data: Seq<u8>,
    parameters: WriteImageParameters,
    header: Seq<u8>,
)
    requires
        parameters.image_report_payload_length > 0,
        header.len() + parameters.image_report_payload_length <= parameters.image_report_length,
    ensures
        spec_data_reports(data, parameters, header).len() == (data.len()
            + parameters.image_report_payload_length - 1) / parameters.image_report_payload_length as int,
        forall|k: int|
            0 <= k < spec_data_reports(data, parameters, header).len() ==> {
                let rep = #[trigger] spec_data_reports(data, parameters, header)[k];
                let page = pages(data, parameters.image_report_payload_length as nat)[k];
                &&& rep.len() == parameters.image_report_length
                &&& rep.subrange(0, header.len() as int) == header
                &&& rep.subrange(header.len() as int, (header.len() + page.len()) as int) == page
                &&& forall|j: int|
                    header.len() + page.len() <= j < rep.len() ==> rep[j] == 0
            },
{
    let size = parameters.image_report_payload_length as nat;
    lemma_pages_reassemble(data, size);
    let ps = pages(data, size);
    assert forall|k: int|
        0 <= k < spec_data_reports(data, parameters, header).len() implies {
            let rep = #[trigger] spec_data_reports(data, parameters, header)[k];
            let page = ps[k];
            &&& rep.len() == parameters.image_report_length
            &&& rep.subrange(0, header.len() as int) == header
            &&& rep.subrange(header.len() as int, (header.len() + page.len()) as int) == page
            &&& forall|j: int|
                header.len() + page.len() <= j < rep.len() ==> rep[j] == 0
        } by {
        let rep = spec_data_reports(data, parameters, header)[k];
        let page = ps[k];
        assert(0 < page.len() <= size);
        assert(rep.subrange(0, header.len() as int) =~= header);
        assert(rep.subrange(header.len() as int, (header.len() + page.len()) as int) =~= page);
    }
}

/// Brightness percentage as it is sent: values above 100 become 100.
pub open spec fn clamp_percent(percent: u8) -> u8 {
    if percent > 100 {
        100
    } else {
        percent
    }
}

/// The two setup commands sent once per session: "DIS", then "LIG" with
/// zero brightness fields.
pub open spec fn spec_init_reports(kind: &Kind) -> Seq<Seq<u8>> {
    seq![
        spec_command(kind, seq![0x44u8, 0x49, 0x53]),
        spec_command(kind, seq![0x4cu8, 0x49, 0x47, 0x00, 0x00, 0x00, 0x00]),
    ]
}

/// "LIG": set the brightness.
pub open spec fn spec_brightness_report(kind: &Kind, percent: u8) -> Seq<u8> {
    spec_command(kind, seq![0x4cu8, 0x49, 0x47, 0x00, 0x00, clamp_percent(percent)])
}

/// "BAT": announce an image of `len` bytes for a logical key; the length
/// goes as two big-endian bytes, the key as its one-based wire index.
pub open spec fn spec_image_announce(kind: &Kind, key: u8, len: nat) -> Seq<u8> {
    spec_command(
        kind,
        seq![
            0x42u8,
            0x41,
            0x54,
            0x00,
            0x00,
            ((len / 256) % 256) as u8,
            (len % 256) as u8,
            (spec_device_key_index(kind, key) + 1) as u8,
        ],
    )
}

/// "CLE": clear one key's image, or all of them for key 0xff.
pub open spec fn spec_clear_report(kind: &Kind, key: u8) -> Seq<u8> {
    let wire = spec_device_key_index(kind, key);
    spec_command(
        kind,
        seq![0x43u8, 0x4c, 0x45, 0x00, 0x00, 0x00, if wire == 0xff { 0xffu8 } else { (wire + 1) as u8 }],
    )
}

/// "STP": commit the pending changes.
pub open spec fn spec_commit_report(kind: &Kind) -> Seq<u8> {
    spec_command(kind, seq![0x53u8, 0x54, 0x50])
}

/// "HAN": put the device to sleep.
pub open spec fn spec_sleep_report(kind: &Kind) -> Seq<u8> {
    spec_command(kind, seq![0x48u8, 0x41, 0x4e])
}

/// "CONNECT": keep the device awake.
pub open spec fn spec_keep_alive_report(kind: &Kind) -> Seq<u8> {
    spec_command(kind, seq![0x43u8, 0x4f, 0x4e, 0x4e, 0x45, 0x43, 0x54])
}

/// "CLE" with "DC": clear the whole device before shutting down.
pub open spec fn spec_shutdown_clear_report(kind: &Kind) -> Seq<u8> {
    spec_command(kind, seq![0x43u8, 0x4c, 0x45, 0x00, 0x00, 0x44, 0x43])
}

/// "LOG": announce a full-screen image of `len` bytes, as four big-endian
/// bytes followed by a one.
pub open spec fn spec_logo_announce(kind: &Kind, len: nat) -> Seq<u8> {
    spec_command(
        kind,
        seq![
            0x4cu8,
            0x4f,
            0x47,
            ((len / 0x1000000) % 256) as u8,
            ((len / 0x10000) % 256) as u8,
            ((len / 256) % 256) as u8,
            (len % 256) as u8,
            0x01,
        ],
    )
}

/// Builds the two setup reports.
pub fn init_reports(kind: &Kind) -> (r: Vec<Vec<u8>>)
    ensures
        report_bytes(r@) == spec_init_reports(kind),
{
    let a = command_report(kind, &[0x44, 0x49, 0x53]);
    let b = command_report(kind, &[0x4c, 0x49, 0x47, 0x00, 0x00, 0x00, 0x00]);
    let r = vec![a, b];
    assert(report_bytes(r@) =~= spec_init_reports(kind));
    r
}

/// Builds a brightness report; the percentage is clamped to 100.
pub fn brightness_report(kind: &Kind, percent: u8) -> (r: Vec<u8>)
    ensures
        r@ == spec_brightness_report(kind, percent),
{
    let percent = if percent > 100 {
        100
    } else {
        percent
    };
    let r = command_report(kind, &[0x4c, 0x49, 0x47, 0x00, 0x00, percent]);
    r
}

/// Builds the report that announces a key image.
pub fn image_announce_report(kind: &Kind, key: u8, len: usize) -> (r: Vec<u8>)
    requires
        key < kind.key_count(),
    ensures
        r@ == spec_image_announce(kind, key, len as nat),
{
    let wire = device_key_index(kind, key);
    proof {
        crate::util::lemma_key_index_bijection(*kind, key);
    }
    let r = command_report(
        kind,
        &[0x42, 0x41, 0x54, 0x00, 0x00, ((len / 256) % 256) as u8, (len % 256) as u8, wire + 1],
    );
    r
}

/// Builds the report that clears a key's image (all keys for 0xff).
pub fn clear_report(kind: &Kind, key: u8) -> (r: Vec<u8>)
    requires
        key < kind.key_count() || key == 0xff,
    ensures
        r@ == spec_clear_report(kind, key),
{
    let wire = device_key_index(kind, key);
    let last: u8 = if wire == 0xff {
        0xff
    } else {
        wire + 1
    };
    let r = command_report(kind, &[0x43, 0x4c, 0x45, 0x00, 0x00, 0x00, last]);
    r
}

/// Builds the commit report.
pub fn commit_report(kind: &Kind) -> (r: Vec<u8>)
    ensures
        r@ == spec_commit_report(kind),
{
    command_report(kind, &[0x53, 0x54, 0x50])
}

/// Builds the sleep report.
pub fn sleep_report(kind: &Kind) -> (r: Vec<u8>)
    ensures
        r@ == spec_sleep_report(kind),
{
    command_report(kind, &[0x48, 0x41, 0x4e])
}

/// Builds the keep-alive report.
pub fn keep_alive_report(kind: &Kind) -> (r: Vec<u8>)
    ensures
        r@ == spec_keep_alive_report(kind),
{
    command_report(kind, &[0x43, 0x4f, 0x4e, 0x4e, 0x45, 0x43, 0x54])
}

/// Builds the clearing report sent on shutdown.
pub fn shutdown_clear_report(kind: &Kind) -> (r: Vec<u8>)
    ensures
        r@ == spec_shutdown_clear_report(kind),
{
    command_report(kind, &[0x43, 0x4c, 0x45, 0x00, 0x00, 0x44, 0x43])
}

/// Builds the report that announces a full-screen image.
pub fn logo_announce_report(kind: &Kind, len: usize) -> (r: Vec<u8>)
    ensures
        r@ == spec_logo_announce(kind, len as nat),
{
    let r = command_report(
        kind,
        &[
            0x4c,
            0x4f,
            0x47,
            ((len / 0x1000000) % 256) as u8,
            ((len / 0x10000) % 256) as u8,
            ((len / 256) % 256) as u8,
            (len % 256) as u8,
            0x01,
        ],
    );
    r
}

} // verus!
