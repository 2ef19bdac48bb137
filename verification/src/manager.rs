//! Window instance management.
//!
//! The manager owns the monotonic identity counter and the handshake
//! registry. Opening an image allocates the next `"main-<n>"` identity,
//! derives the image's transport payload once, and arms the handshake for
//! exactly that identity — which is always fresh, since every armed identity
//! was allocated from an earlier counter value and labels never repeat.

use vstd::prelude::*;
use crate::common::Size;
use crate::handshake::{
    lemma_deliver_subset, lemma_deliver_unique, lemma_find_absent, lemma_find_push_fresh,
    spec_deliver, spec_find, unique_labels, ArmedDelivery, HandshakeRegistry,
};
use crate::image_io::{b64_of, png_of, spec_load_dims, spec_sniff, DataURL, ImageContent};
use crate::source::{path_image_available, resolve_image, ClipboardImage, PathLookup};
use crate::window::{lemma_label_unique, spec_label, window_label};

verus! {

/// The payload armed for `label` is the transport encoding of `bytes`.
pub open spec fn armed_payload_is(
    entries: Seq<ArmedDelivery>,
    label: Seq<char>,
    bytes: Seq<u8>,
) -> bool {
    spec_find(entries, label) matches Some(p) && p.base64_encoded_data@ == b64_of(bytes)
}

/// What the caller needs to build the native window: its fresh identity and
/// the pixel dimensions its geometry is computed from.
pub struct OpenPlan {
    pub label: String,
    pub size: Size<u32>,
}

/// The process-wide window manager: the identity counter and the registry
/// of armed handshakes. All mutation goes through `&mut self`, so shared use
/// must serialize on it.
pub struct WindowManager {
    pub counter: u64,
    pub registry: HandshakeRegistry,
}

impl WindowManager {
    /// Every armed identity is unique and was allocated from a counter value
    /// already spent.
    pub open spec fn wf(self) -> bool {
        &&& unique_labels(self.registry.entries@)
        &&& forall|i: int|
            0 <= i < self.registry.entries@.len() ==> exists|k: nat|
                k < self.counter && (#[trigger] self.registry.entries@[i]).label@ == spec_label(k)
    }

    pub fn new() -> (r: WindowManager)
        ensures
            r.wf(),
            r.counter == 0,
            r.registry.entries@.len() == 0,
    {
        WindowManager { counter: 0, registry: HandshakeRegistry::new() }
    }

    /// Open one image: allocate the next window identity, derive the
    /// transport payload, and arm the handshake so that exactly this
    /// window, once its front end is ready, receives exactly this payload.
    pub fn open_image(&mut self, image: ImageContent) -> (r: OpenPlan)
        requires
            old(self).wf(),
            old(self).counter < u64::MAX,
        ensures
            final(self).wf(),
            final(self).counter == old(self).counter + 1,
            r.label@ == spec_label(old(self).counter as nat),
            r.size == image.size,
            final(self).registry.entries@.len() == old(self).registry.entries@.len() + 1,
            forall|i: int|
                0 <= i < old(self).registry.entries@.len()
                    ==> final(self).registry.entries@[i] == old(self).registry.entries@[i],
            spec_find(final(self).registry.entries@, r.label@) matches Some(p)
                && p.mime_type == image.mime_type && p.base64_encoded_data@ == b64_of(image.data@),
    {
        let ghost c0 = self.counter as nat;
        let label = window_label(self.counter);
        let plan_label = label.clone();
        self.counter = self.counter + 1;
        let size = image.size;
        let payload = image.to_data_url();
        proof {
            assert forall|i: int|
                0 <= i < self.registry.entries@.len() implies self.registry.entries@[i].label@
                != label@ by {
                let k = choose|k: nat|
                    k < c0 && self.registry.entries@[i].label@ == spec_label(k);
                lemma_label_unique(k, c0);
            }
            lemma_find_absent(self.registry.entries@, label@);
        }
        let ghost entries0 = self.registry.entries@;
        let ghost entry = (ArmedDelivery { label: label, payload: payload });
        self.registry.arm(label, payload);
        proof {
            lemma_find_push_fresh(entries0, entry);
            assert forall|i: int|
                0 <= i < self.registry.entries@.len() implies exists|k: nat|
                    k < self.counter && (#[trigger] self.registry.entries@[i]).label@
                        == spec_label(k) by {
                if i < entries0.len() {
                    assert(self.registry.entries@[i] == entries0[i]);
                    let k = choose|k: nat| k < c0 && entries0[i].label@ == spec_label(k);
                    assert(k < self.counter && self.registry.entries@[i].label@ == spec_label(k));
                } else {
                    assert(self.registry.entries@[i] == entry);
                    assert(c0 < self.counter && self.registry.entries@[i].label@ == spec_label(
                        c0,
                    ));
                }
            }
        }
        OpenPlan { label: plan_label, size }
    }

    /// A front end declared itself ready under `label`: hand out the one
    /// payload armed for that identity, if any, exactly once.
    pub fn deliver_ready(&mut self, label: &String) -> (r: Option<DataURL>)
        requires
            old(self).wf(),
        ensures
            final(self).wf(),
            final(self).counter == old(self).counter,
            r == spec_find(old(self).registry.entries@, label@),
            final(self).registry.entries@ == spec_deliver(old(self).registry.entries@, label@),
    {
        let r = self.registry.on_ready(label);
        proof {
            self.lemma_shrink_keeps_wf(*old(self), label@);
        }
        r
    }

    /// A window was closed: drop whatever is still armed for it, so no
    /// listener outlives its window.
    pub fn window_closed(&mut self, label: &String)
        requires
            old(self).wf(),
        ensures
            final(self).wf(),
            final(self).counter == old(self).counter,
            final(self).registry.entries@ == spec_deliver(old(self).registry.entries@, label@),
    {
        let _ = self.deliver_ready(label);
    }

    proof fn lemma_shrink_keeps_wf(&self, prev: WindowManager, label: Seq<char>)
        requires
            prev.wf(),
            self.counter == prev.counter,
            self.registry.entries@ == spec_deliver(prev.registry.entries@, label),
        ensures
            self.wf(),
    {
        lemma_deliver_unique(prev.registry.entries@, label);
        lemma_deliver_subset(prev.registry.entries@, label);
        assert forall|i: int|
            0 <= i < self.registry.entries@.len() implies exists|k: nat|
                k < self.counter && (#[trigger] self.registry.entries@[i]).label@ == spec_label(
                    k,
                ) by {
            let j = choose|j: int|
                0 <= j < prev.registry.entries@.len() && spec_deliver(
                    prev.registry.entries@,
                    label,
                )[i] == prev.registry.entries@[j];
            let k = choose|k: nat|
                k < prev.counter && prev.registry.entries@[j].label@ == spec_label(k);
            assert(k < self.counter && self.registry.entries@[i].label@ == spec_label(k));
        }
    }

    /// Resolve an image from the path and clipboard sources and, where one
    /// is found, open a window for it; with no source, do nothing at all.
    pub fn open_image_if_present(
        &mut self,
        lookup: PathLookup,
        clipboard: Option<ClipboardImage>,
    ) -> (r: Option<OpenPlan>)
        requires
            old(self).wf(),
            old(self).counter < u64::MAX,
            clipboard matches Some(c) ==> c.wf(),
        ensures
            final(self).wf(),
            !path_image_available(lookup) && clipboard is None ==> r is None,
            r is None ==> final(self).counter == old(self).counter
                && final(self).registry.entries@ == old(self).registry.entries@,
            r matches Some(plan) ==> plan.label@ == spec_label(old(self).counter as nat)
                && final(self).counter == old(self).counter + 1,
            lookup matches PathLookup::Contents(d) ==> spec_sniff(d@) matches Some(k)
                ==> spec_load_dims(d@) matches Some(dim) ==> r matches Some(plan)
                && plan.size.width == dim.0 && plan.size.height == dim.1 && armed_payload_is(
                final(self).registry.entries@,
                plan.label@,
                d@,
            ),
            !path_image_available(lookup) ==> (clipboard matches Some(c) ==> r matches Some(plan)
                && plan.size.width == c.width && plan.size.height == c.height && armed_payload_is(
                final(self).registry.entries@,
                plan.label@,
                png_of(c.pixels@, c.width, c.height),
            )),
    {
        match resolve_image(lookup, clipboard) {
            Some(img) => Some(self.open_image(img)),
            None => None,
        }
    }
}

} // verus!
