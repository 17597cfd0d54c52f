//! The page list shown for an open book: the archive decides how many pages
//! there are, and the stored page entries overlay them by position.

use vstd::prelude::*;

verus! {

/// Where a displayed page's entry comes from: the stored entry at that
/// position, or a fresh entry for the archive's page at that position.
#[derive(Clone, Copy, Debug, PartialEq, Eq, Structural)]
pub enum PageSource {
    Stored(usize),
    Provider(usize),
}

/// The entry of displayed page `i` and the archive image it reads: the
/// stored entry when there is one (its own image, or its position when the
/// stored image is unusable), else a fresh entry reading image `i`.
pub open spec fn spec_page_row(stored_images: Seq<i32>, i: int) -> (PageSource, i32) {
    if i < stored_images.len() {
        (PageSource::Stored(i as usize), if stored_images[i] < 0 {
            i as i32
        } else {
            stored_images[i]
        })
    } else {
        (PageSource::Provider(i as usize), i as i32)
    }
}

/// The displayed page list: one row per archive page (`provider_count`),
/// each as [`spec_page_row`] says. `stored_images` are the image indexes
/// of the stored entries, in order.
pub fn merged_page_plan(stored_images: &[i32], provider_count: usize) -> (r: Vec<(PageSource, i32)>)
    ensures
        r@.len() == provider_count,
        forall|i: int| 0 <= i < provider_count ==> #[trigger] r@[i] == spec_page_row(stored_images@, i),
{
    let mut out: Vec<(PageSource, i32)> = Vec::new();
    let mut i: usize = 0;
    while i < provider_count
        invariant
            i <= provider_count,
            out@.len() == i,
            forall|k: int| 0 <= k < i ==> #[trigger] out@[k] == spec_page_row(stored_images@, k),
        decreases provider_count - i,
    {
        let row = if i < stored_images.len() {
            let image = stored_images[i];
            (PageSource::Stored(i), if image < 0 {
                #[verifier::truncate]
                (i as i32)
            } else {
                image
            })
        } else {
            (PageSource::Provider(i), #[verifier::truncate] (i as i32))
        };
        out.push(row);
        i = i + 1;
    }
    out
}

} // verus!
