//! What passes between the synchronisation of a feed and its observers: the
//! request to refresh, and the list of images as it fills up.

use vstd::prelude::*;

use crate::service::ImageService;

verus! {

/// One image of a feed, in the form every feed is brought to.
#[derive(Debug, PartialEq, Eq)]
pub struct DailyImage {
    /// Where the image lies in the cache; empty until it is known to be there.
    pub url: String,
    /// The day the image belongs to, or nothing for a feed without dates.
    pub date: String,
    /// What the feed says about the image.
    pub description: String,
}

/// The content of a [`DailyImage`].
pub ghost struct DailyImageView {
    pub url: Seq<char>,
    pub date: Seq<char>,
    pub description: Seq<char>,
}

impl View for DailyImage {
    type V = DailyImageView;

    open spec fn view(&self) -> DailyImageView {
        DailyImageView { url: self.url@, date: self.date@, description: self.description@ }
    }
}

impl Clone for DailyImage {
    fn clone(&self) -> (copy: DailyImage)
        ensures
            copy@ == self@,
    {
        DailyImage {
            url: self.url.clone(),
            date: self.date.clone(),
            description: self.description.clone(),
        }
    }
}

/// The contents of a list of images.
pub open spec fn image_views(images: Seq<DailyImage>) -> Seq<DailyImageView> {
    images.map_values(|i: DailyImage| i@)
}

/// A copy of a list of images.
pub fn copy_images(images: &Vec<DailyImage>) -> (copy: Vec<DailyImage>)
    ensures
        image_views(copy@) == image_views(images@),
{
    let mut copy: Vec<DailyImage> = Vec::new();
    let mut i: usize = 0;
    while i < images.len()
        invariant
            i <= images@.len(),
            image_views(copy@) == image_views(images@).take(i as int),
        decreases images@.len() - i,
    {
        let ghost copied = image_views(copy@);
        copy.push(images[i].clone());
        assert(image_views(copy@) =~= copied.push(images@[i as int]@));
        assert(image_views(images@).take(i + 1) =~= image_views(images@).take(i as int).push(
            images@[i as int]@,
        ));
        i = i + 1;
    }
    assert(image_views(images@).take(i as int) =~= image_views(images@));
    copy
}

/// The images of one feed, in the order the feed gives them.
#[derive(Debug, PartialEq, Eq)]
pub struct ImageList {
    pub service: ImageService,
    pub images: Vec<DailyImage>,
}

/// The content of an [`ImageList`].
pub ghost struct ImageListView {
    pub service: ImageService,
    pub images: Seq<DailyImageView>,
}

impl View for ImageList {
    type V = ImageListView;

    open spec fn view(&self) -> ImageListView {
        ImageListView { service: self.service, images: image_views(self.images@) }
    }
}

/// A request to bring the cache of one feed up to date. With `reset`, the
/// feed's item list is fetched anew even where a copy is cached.
#[derive(Debug, Clone, Copy, PartialEq, Eq, Structural)]
pub struct Refresh {
    pub service: ImageService,
    pub reset: bool,
}

} // verus!
