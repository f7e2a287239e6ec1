use vstd::prelude::*;

use crate::error::AjazzError;
use crate::info::Kind;
use crate::protocol::{
    brightness_report, clear_report, commit_report, image_announce_report, init_reports,
    keep_alive_report, logo_announce_report, report_bytes, shutdown_clear_report, sleep_report,
    spec_brightness_report, spec_clear_report, spec_commit_report, spec_data_reports,
    spec_image_announce, spec_init_reports, spec_keep_alive_report, spec_logo_announce,
    spec_shutdown_clear_report, spec_sleep_report, zero_header_data_reports, WriteImageParameters,
};

verus! {

/// An image staged for a key, waiting for a flush.
pub struct ImageCache {
    /// Logical key index
    pub key: u8,
    /// Encoded image bytes
    pub image_data: Vec<u8>,
}

/// State of a session with one device: its kind, whether the setup
/// commands were sent, and the images staged since the last flush.
///
/// Every operation returns the reports that the caller must write to the
/// device, in order.
pub struct Session {
    kind: Kind,
    initialized: bool,
    image_cache: Vec<ImageCache>,
}

/// Model of a session.
pub struct SessionView {
    pub kind: Kind,
    pub initialized: bool,
    pub cache: Seq<(u8, Seq<u8>)>,
}

/// Key images that a kind can show: display keys below the key count.
pub open spec fn accepts_image(kind: &Kind, key: u8) -> bool {
    key < kind.key_count() && !(kind.is_akp03() && key >= 6)
}

/// Whether a cached entry for the key exists.
pub open spec fn cache_has(cache: Seq<(u8, Seq<u8>)>, key: u8) -> bool {
    exists|i: int| 0 <= i < cache.len() && cache[i].0 == key
}

/// The cache after staging `data` for `key`: an existing entry for the key
/// takes the new bytes in place, else a new entry goes at the end.
pub open spec fn staged(cache: Seq<(u8, Seq<u8>)>, key: u8, data: Seq<u8>) -> Seq<(u8, Seq<u8>)> {
    if cache_has(cache, key) {
        let i = choose|i: int| 0 <= i < cache.len() && cache[i].0 == key;
        cache.update(i, (key, data))
    } else {
        cache.push((key, data))
    }
}

/// The keys of a cache are distinct and each is one that takes images.
pub open spec fn cache_wf(kind: &Kind, cache: Seq<(u8, Seq<u8>)>) -> bool {
    &&& forall|i: int, j: int|
        0 <= i < cache.len() && 0 <= j < cache.len() && i != j ==> cache[i].0 != cache[j].0
    &&& forall|i: int| 0 <= i < cache.len() ==> accepts_image(kind, #[trigger] cache[i].0)
}

/// The reports that send one key image: the announcement, then the data
/// reports, each starting with a zero report-id byte.
pub open spec fn spec_image_reports(kind: &Kind, key: u8, data: Seq<u8>) -> Seq<Seq<u8>> {
    seq![spec_image_announce(kind, key, data.len())] + spec_data_reports(
        data,
        WriteImageParameters {
            image_report_length: crate::util::spec_report_length(kind) as usize,
            image_report_payload_length: (crate::util::spec_report_length(kind) - 1) as usize,
        },
        seq![0x00u8],
    )
}

/// The reports that send every cached image, in cache order.
pub open spec fn spec_cache_reports(kind: &Kind, cache: Seq<(u8, Seq<u8>)>) -> Seq<Seq<u8>> {
    Seq::new(cache.len(), |i: int| spec_image_reports(kind, cache[i].0, cache[i].1)).flatten()
}

/// The reports that send a full-screen image: the announcement, then the
/// data reports, each starting with a zero report-id byte.
pub open spec fn spec_logo_reports(kind: &Kind, data: Seq<u8>) -> Seq<Seq<u8>> {
    seq![spec_logo_announce(kind, data.len())] + spec_data_reports(
        data,
        WriteImageParameters {
            image_report_length: crate::util::spec_report_length(kind) as usize,
            image_report_payload_length: (crate::util::spec_report_length(kind) - 1) as usize,
        },
        seq![0x00u8],
    )
}

/// What a flush writes: every cached image and then a commit, or nothing
/// when the cache is empty.
pub open spec fn spec_flush_reports(kind: &Kind, cache: Seq<(u8, Seq<u8>)>) -> Seq<Seq<u8>> {
    if cache.len() == 0 {
        Seq::empty()
    } else {
        spec_cache_reports(kind, cache).push(spec_commit_report(kind))
    }
}

fn append_reports(out: &mut Vec<Vec<u8>>, more: Vec<Vec<u8>>)
    ensures
        report_bytes(final(out)@) == report_bytes(old(out)@) + report_bytes(more@),
{
    let mut more = more;
    let ghost a = out@;
    let ghost b = more@;
    out.append(&mut more);
    assert(report_bytes(out@) =~= report_bytes(a) + report_bytes(b));
}

impl View for Session {
    type V = SessionView;

    closed spec fn view(&self) -> SessionView {
        SessionView {
            kind: self.kind,
            initialized: self.initialized,
            cache: self.image_cache@.map_values(|e: ImageCache| (e.key, e.image_data@)),
        }
    }
}

impl Session {
    /// The session's invariant: its cache is well formed.
    pub open spec fn wf(&self) -> bool {
        cache_wf(&self@.kind, self@.cache)
    }

    /// The setup reports still owed before a command.
    pub open spec fn spec_setup(&self) -> Seq<Seq<u8>> {
        if self@.initialized {
            Seq::empty()
        } else {
            spec_init_reports(&self@.kind)
        }
    }

    /// A new session with a device of the given kind.
    pub fn new(kind: Kind) -> (r: Session)
        ensures
            r.wf(),
            r@.kind == kind,
            !r@.initialized,
            r@.cache.len() == 0,
    {
        let r = Session { kind, initialized: false, image_cache: Vec::new() };
        assert(r@.cache =~= Seq::<(u8, Seq<u8>)>::empty());
        r
    }

    /// Kind of the device.
    pub fn kind(&self) -> (r: Kind)
        ensures
            r == self@.kind,
    {
        self.kind
    }

    /// Marks the session initialized and returns the setup reports the
    /// first time; nothing afterwards.
    pub fn initialize(&mut self) -> (r: Vec<Vec<u8>>)
        requires
            old(self).wf(),
        ensures
            final(self).wf(),
            final(self)@ == (SessionView { initialized: true, ..old(self)@ }),
            report_bytes(r@) == old(self).spec_setup(),
    {
        if self.initialized {
            let r: Vec<Vec<u8>> = Vec::new();
            assert(report_bytes(r@) =~= Seq::<Seq<u8>>::empty());
            return r;
        }
        self.initialized = true;
        init_reports(&self.kind)
    }

    /// Sets the brightness; the percentage is clamped to 100.
    pub fn set_brightness(&mut self, percent: u8) -> (r: Vec<Vec<u8>>)
        requires
            old(self).wf(),
        ensures
            final(self).wf(),
            final(self)@ == (SessionView { initialized: true, ..old(self)@ }),
            report_bytes(r@) == old(self).spec_setup().push(
                spec_brightness_report(&old(self)@.kind, percent),
            ),
    {
        let mut r = self.initialize();
        let ghost a = r@;
        r.push(brightness_report(&self.kind, percent));
        assert(report_bytes(r@) =~= report_bytes(a).push(r@.last()@));
        r
    }

    /// Clears one key's image (every key's for 0xff).
    /// A key at or above the key count is refused, and the session is left
    /// as it was; 0xff stands for every key.
    pub fn clear_button_image(&mut self, key: u8) -> (r: Result<Vec<Vec<u8>>, AjazzError>)
        requires
            old(self).wf(),
        ensures
            final(self).wf(),
            key >= old(self)@.kind.key_count() && key != 0xff ==> (r matches Err(
                AjazzError::InvalidKeyIndex,
            ) && final(self)@ == old(self)@),
            key < old(self)@.kind.key_count() || key == 0xff ==> (r matches Ok(v) && report_bytes(
                v@,
            ) == old(self).spec_setup().push(spec_clear_report(&old(self)@.kind, key))
                && final(self)@ == (SessionView { initialized: true, ..old(self)@ })),
    {
        if key >= self.kind.key_count() && key != 0xff {
            return Err(AjazzError::InvalidKeyIndex);
        }
        let mut r = self.initialize();
        let ghost a = r@;
        r.push(clear_report(&self.kind, key));
        assert(report_bytes(r@) =~= report_bytes(a).push(r@.last()@));
        Ok(r)
    }

    /// The reports that clear every key: a clear of key 0xff, followed on
    /// second-generation devices by a commit.
    pub open spec fn spec_clear_all(kind: &Kind) -> Seq<Seq<u8>> {
        if kind.is_v2_api() {
            seq![spec_clear_report(kind, 0xff), spec_commit_report(kind)]
        } else {
            seq![spec_clear_report(kind, 0xff)]
        }
    }

    /// Clears the images of all keys.
    pub fn clear_all_button_images(&mut self) -> (r: Vec<Vec<u8>>)
        requires
            old(self).wf(),
        ensures
            final(self).wf(),
            final(self)@ == (SessionView { initialized: true, ..old(self)@ }),
            report_bytes(r@) == old(self).spec_setup() + Session::spec_clear_all(&old(self)@.kind),
    {
        let ghost setup = self.spec_setup();
        let mut r = self.initialize();
        let ghost a = r@;
        r.push(clear_report(&self.kind, 0xff));
        assert(report_bytes(r@) =~= report_bytes(a).push(r@.last()@));
        if self.kind.is_v2_api() {
            let ghost a = r@;
            r.push(commit_report(&self.kind));
            assert(report_bytes(r@) =~= report_bytes(a).push(r@.last()@));
        }
        assert(report_bytes(r@) =~= setup + Session::spec_clear_all(&self@.kind));
        r
    }

    /// Resets the device: full brightness, then every key cleared.
    pub fn reset(&mut self) -> (r: Vec<Vec<u8>>)
        requires
            old(self).wf(),
        ensures
            final(self).wf(),
            final(self)@ == (SessionView { initialized: true, ..old(self)@ }),
            report_bytes(r@) == old(self).spec_setup().push(
                spec_brightness_report(&old(self)@.kind, 100),
            ) + Session::spec_clear_all(&old(self)@.kind),
    {
        let mut r = self.set_brightness(100);
        let more = self.clear_all_button_images();
        append_reports(&mut r, more);
        assert(Seq::<Seq<u8>>::empty() + Session::spec_clear_all(&self@.kind)
            =~= Session::spec_clear_all(&self@.kind));
        r
    }

    /// Stages an image for a key, to be sent by the next flush. A staged
    /// image for the same key is replaced. Keys without a display on the
    /// AKP03 family are ignored; a key beyond the key count is an error.
    pub fn write_image(&mut self, key: u8, image_data: &[u8]) -> (r: Result<(), AjazzError>)
        requires
            old(self).wf(),
        ensures
            final(self).wf(),
            old(self)@.kind.is_akp03() && key >= 6 ==> r is Ok && final(self)@ == old(self)@,
            !(old(self)@.kind.is_akp03() && key >= 6) && key >= old(self)@.kind.key_count() ==> (r
                matches Err(AjazzError::InvalidKeyIndex) && final(self)@ == old(self)@),
            accepts_image(&old(self)@.kind, key) ==> r is Ok && final(self)@ == (SessionView {
                cache: staged(old(self)@.cache, key, image_data@),
                ..old(self)@
            }),
    {
        if self.kind.is_akp03() && key >= 6 {
            return Ok(());
        }
        if key >= self.kind.key_count() {
            return Err(AjazzError::InvalidKeyIndex);
        }
        let ghost cache = self@.cache;
        let entry = ImageCache { key, image_data: vstd::slice::slice_to_vec(image_data) };
        assert(entry.image_data@ == image_data@);
        assert(cache_wf(&self@.kind, cache));
        let mut i: usize = 0;
        while i < self.image_cache.len()
            invariant
                self@ == old(self)@,
                cache == self@.cache,
                cache_wf(&self@.kind, cache),
                entry.key == key,
                entry.image_data@ == image_data@,
                i <= cache.len(),
                forall|j: int| 0 <= j < i ==> cache[j].0 != key,
            decreases cache.len() - i,
        {
            if self.image_cache[i].key == key {
                assert(cache[i as int].0 == key);
                self.image_cache.set(i, entry);
                proof {
                    assert(0 <= i < cache.len() && cache[i as int].0 == key);
                    let c = choose|c: int| 0 <= c < cache.len() && cache[c].0 == key;
                    assert(cache[c].0 == cache[i as int].0);
                    assert(c == i);
                    assert(self@.cache =~= cache.update(i as int, (key, image_data@)));
                }
                return Ok(());
            }
            i = i + 1;
        }
        self.image_cache.push(entry);
        assert(self@.cache =~= cache.push((key, image_data@)));
        Ok(())
    }

    /// The reports of every cached image, in cache order.
    fn cache_reports(&self) -> (r: Vec<Vec<u8>>)
        requires
            self.wf(),
        ensures
            report_bytes(r@) == spec_cache_reports(&self@.kind, self@.cache),
    {
        let ghost cache = self@.cache;
        let ghost kind = self@.kind;
        let ghost f = |j: int| spec_image_reports(&kind, cache[j].0, cache[j].1);
        let mut r: Vec<Vec<u8>> = Vec::new();
        let mut i: usize = 0;
        assert(Seq::new(0, f).flatten() =~= Seq::<Seq<u8>>::empty());
        while i < self.image_cache.len()
            invariant
                self.wf(),
                cache == self@.cache,
                kind == self@.kind,
                f == (|j: int| spec_image_reports(&kind, cache[j].0, cache[j].1)),
                i <= cache.len(),
                report_bytes(r@) == Seq::new(i as nat, f).flatten(),
            decreases cache.len() - i,
        {
            let entry = &self.image_cache[i];
            assert(accepts_image(&kind, cache[i as int].0));
            let more = image_reports(&self.kind, entry.key, entry.image_data.as_slice());
            append_reports(&mut r, more);
            proof {
                Seq::new(i as nat, f).lemma_flatten_push(f(i as int));
                assert(Seq::new(i as nat, f).push(f(i as int)) =~= Seq::new((i + 1) as nat, f));
            }
            i = i + 1;
        }
        assert(Seq::new(cache.len(), f) =~= Seq::new(
            cache.len(),
            |j: int| spec_image_reports(&kind, cache[j].0, cache[j].1),
        ));
        r
    }

    /// Sends every staged image, then a commit; with nothing staged it
    /// sends nothing but the setup. The cache is kept until the caller
    /// reports, through [Session::finish_flush], that all reports were
    /// written.
    pub fn flush(&mut self) -> (r: Vec<Vec<u8>>)
        requires
            old(self).wf(),
        ensures
            final(self).wf(),
            final(self)@ == (SessionView { initialized: true, ..old(self)@ }),
            report_bytes(r@) == old(self).spec_setup() + spec_flush_reports(
                &old(self)@.kind,
                old(self)@.cache,
            ),
    {
        let mut r = self.initialize();
        if self.image_cache.len() == 0 {
            assert(report_bytes(r@) =~= report_bytes(r@) + Seq::<Seq<u8>>::empty());
            return r;
        }
        let more = self.cache_reports();
        append_reports(&mut r, more);
        let ghost a = r@;
        r.push(commit_report(&self.kind));
        assert(report_bytes(r@) =~= report_bytes(a).push(r@.last()@));
        r
    }

    /// Empties the cache once every report of a flush was written.
    pub fn finish_flush(&mut self)
        requires
            old(self).wf(),
        ensures
            final(self).wf(),
            final(self)@ == (SessionView { cache: Seq::empty(), ..old(self)@ }),
    {
        self.image_cache.clear();
        assert(self@.cache =~= Seq::<(u8, Seq<u8>)>::empty());
    }

    /// Sends a full-screen image right away, bypassing the cache: the
    /// announcement, then the data reports. Devices without an LCD strip
    /// refuse it, and the session is left as it was.
    pub fn set_logo_image(&mut self, image_data: &[u8]) -> (r: Result<Vec<Vec<u8>>, AjazzError>)
        requires
            old(self).wf(),
        ensures
            final(self).wf(),
            old(self)@.kind.lcd_strip_size() is None ==> (r matches Err(
                AjazzError::UnsupportedOperation,
            ) && final(self)@ == old(self)@),
            old(self)@.kind.lcd_strip_size() is Some ==> (r matches Ok(v) && report_bytes(v@)
                == old(self).spec_setup() + spec_logo_reports(&old(self)@.kind, image_data@)
                && final(self)@ == (SessionView { initialized: true, ..old(self)@ })),
    {
        if self.kind.lcd_strip_size().is_none() {
            return Err(AjazzError::UnsupportedOperation);
        }
        let mut r = self.initialize();
        let ghost a = r@;
        r.push(logo_announce_report(&self.kind, image_data.len()));
        assert(report_bytes(r@) =~= report_bytes(a).push(r@.last()@));
        let parameters = WriteImageParameters::for_key(self.kind, image_data.len());
        assert(parameters == (WriteImageParameters {
            image_report_length: crate::util::spec_report_length(&self@.kind) as usize,
            image_report_payload_length: (crate::util::spec_report_length(&self@.kind) - 1) as usize,
        }));
        let more = zero_header_data_reports(image_data, parameters);
        assert(report_bytes(r@) == report_bytes(a) + seq![spec_logo_announce(&self@.kind, image_data@.len())]);
        append_reports(&mut r, more);
        assert(report_bytes(r@) =~= report_bytes(a) + spec_logo_reports(&self@.kind, image_data@));
        Ok(r)
    }

    /// Puts the device to sleep.
    pub fn sleep(&mut self) -> (r: Vec<Vec<u8>>)
        requires
            old(self).wf(),
        ensures
            final(self).wf(),
            final(self)@ == (SessionView { initialized: true, ..old(self)@ }),
            report_bytes(r@) == old(self).spec_setup().push(spec_sleep_report(&old(self)@.kind)),
    {
        let mut r = self.initialize();
        let ghost a = r@;
        r.push(sleep_report(&self.kind));
        assert(report_bytes(r@) =~= report_bytes(a).push(r@.last()@));
        r
    }

    /// Keeps the device awake.
    pub fn keep_alive(&mut self) -> (r: Vec<Vec<u8>>)
        requires
            old(self).wf(),
        ensures
            final(self).wf(),
            final(self)@ == (SessionView { initialized: true, ..old(self)@ }),
            report_bytes(r@) == old(self).spec_setup().push(
                spec_keep_alive_report(&old(self)@.kind),
            ),
    {
        let mut r = self.initialize();
        let ghost a = r@;
        r.push(keep_alive_report(&self.kind));
        assert(report_bytes(r@) =~= report_bytes(a).push(r@.last()@));
        r
    }

    /// Shuts the device down: clears it, then puts it to sleep.
    pub fn shutdown(&mut self) -> (r: Vec<Vec<u8>>)
        requires
            old(self).wf(),
        ensures
            final(self).wf(),
            final(self)@ == (SessionView { initialized: true, ..old(self)@ }),
            report_bytes(r@) == old(self).spec_setup().push(
                spec_shutdown_clear_report(&old(self)@.kind),
            ).push(spec_sleep_report(&old(self)@.kind)),
    {
        let mut r = self.initialize();
        let ghost a = r@;
        r.push(shutdown_clear_report(&self.kind));
        r.push(sleep_report(&self.kind));
        assert(report_bytes(r@) =~= report_bytes(a).push(r@[r@.len() - 2]@).push(r@.last()@));
        r
    }
}

/// The reports that send one key image.
pub fn image_reports(kind: &Kind, key: u8, image_data: &[u8]) -> (r: Vec<Vec<u8>>)
    requires
        key < kind.key_count(),
    ensures
        report_bytes(r@) == spec_image_reports(kind, key, image_data@),
{
    let announce = image_announce_report(kind, key, image_data.len());
    let mut r: Vec<Vec<u8>> = Vec::new();
    r.push(announce);
    assert(report_bytes(r@) =~= seq![spec_image_announce(kind, key, image_data@.len())]);
    let parameters = WriteImageParameters::for_key(*kind, image_data.len());
    assert(parameters == (WriteImageParameters {
        image_report_length: crate::util::spec_report_length(kind) as usize,
        image_report_payload_length: (crate::util::spec_report_length(kind) - 1) as usize,
    }));
    let more = zero_header_data_reports(image_data, parameters);
    let ghost tail = report_bytes(more@);
    assert(tail == spec_data_reports(image_data@, parameters, seq![0x00u8]));
    append_reports(&mut r, more);
    assert(report_bytes(r@) =~= spec_image_reports(kind, key, image_data@));
    r
}

/// Flushing an empty cache sends no reports besides the setup: no key
/// image at all.
pub proof fn lemma_empty_flush_sends_nothing(kind: &Kind)
    ensures
        spec_flush_reports(kind, Seq::empty()) == Seq::<Seq<u8>>::empty(),
{
}

/// Staging keeps the cache well formed; afterwards the key has exactly one
/// entry, holding the staged bytes.
pub proof fn lemma_staged_entry(kind: &Kind, cache: Seq<(u8, Seq<u8>)>, key: u8, data: Seq<u8>)
    requires
        cache_wf(kind, cache),
        accepts_image(kind, key),
    ensures
        cache_wf(kind, staged(cache, key, data)),
        exists|i: int|
            0 <= i < staged(cache, key, data).len() && #[trigger] staged(cache, key, data)[i] == (key, data),
        forall|i: int, j: int|
            0 <= i < staged(cache, key, data).len() && 0 <= j < staged(cache, key, data).len()
                && #[trigger] staged(cache, key, data)[i].0 == key
                && #[trigger] staged(cache, key, data)[j].0 == key ==> i == j,
{
    let c2 = staged(cache, key, data);
    if cache_has(cache, key) {
        let i = choose|i: int| 0 <= i < cache.len() && cache[i].0 == key;
        assert(c2[i] == (key, data));
    } else {
        assert(c2[cache.len() as int] == (key, data));
    }
}

/// Staging two images for the same key leaves the cache as if only the
/// second had been staged: one entry for the key, with the second image,
/// so a flush sends exactly one image for that key.
pub proof fn lemma_restage_replaces(
    kind: &Kind,
    cache: Seq<(u8, Seq<u8>)>,
    key: u8,
    first: Seq<u8>,
    second: Seq<u8>,
)
    requires
        cache_wf(kind, cache),
        accepts_image(kind, key),
    ensures
        staged(staged(cache, key, first), key, second) == staged(cache, key, second),
{
    let c1 = staged(cache, key, first);
    lemma_staged_entry(kind, cache, key, first);
    if cache_has(cache, key) {
        let i = choose|i: int| 0 <= i < cache.len() && cache[i].0 == key;
        assert(c1[i].0 == key);
        let i1 = choose|i1: int| 0 <= i1 < c1.len() && c1[i1].0 == key;
        assert(i1 == i);
        assert(c1.update(i, (key, second)) =~= cache.update(i, (key, second)));
    } else {
        let n = cache.len() as int;
        assert(c1[n].0 == key);
        let i1 = choose|i1: int| 0 <= i1 < c1.len() && c1[i1].0 == key;
        assert(i1 == n);
        assert(c1.update(n, (key, second)) =~= cache.push((key, second)));
    }
}

} // verus!
