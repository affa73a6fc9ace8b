//! Choosing the newest of the images built for an application.
use vstd::prelude::*;
use crate::config::{opt_view, strs_view};
use crate::text::{chars_of, find_char, parse_u64, parse_u64_from};

verus! {

/// `p` is the position of the first `:` of `img`.
pub open spec fn first_colon_at(img: Seq<char>, p: int) -> bool {
    &&& 0 <= p < img.len()
    &&& img[p] == ':'
    &&& !img.take(p).contains(':')
}

/// The build time an image tag carries: the number after its first `:`, or 0
/// where there is no `:` or what follows it is not a `u64`.
pub open spec fn image_time(img: Seq<char>) -> nat {
    if exists|p: int| first_colon_at(img, p) {
        let p = choose|p: int| first_colon_at(img, p);
        match parse_u64(img.skip(p + 1)) {
            Some(v) => v as nat,
            None => 0,
        }
    } else {
        0
    }
}

/// `imgs[i]` is the newest image: its time is positive and the greatest, and
/// no image before it has that time.
pub open spec fn is_latest(imgs: Seq<Seq<char>>, i: int) -> bool {
    &&& 0 <= i < imgs.len()
    &&& image_time(imgs[i]) > 0
    &&& forall|j: int| 0 <= j < imgs.len() ==> image_time(#[trigger] imgs[j]) <= image_time(imgs[i])
    &&& forall|j: int| 0 <= j < i ==> image_time(#[trigger] imgs[j]) < image_time(imgs[i])
}

/// The newest of `imgs`, if any of them carries a positive time.
pub open spec fn latest_image(imgs: Seq<Seq<char>>) -> Option<Seq<char>> {
    if exists|i: int| is_latest(imgs, i) {
        Some(imgs[choose|i: int| is_latest(imgs, i)])
    } else {
        None
    }
}

/// Only one image is the newest.
pub proof fn lemma_latest_unique(imgs: Seq<Seq<char>>, i: int, j: int)
    requires
        is_latest(imgs, i),
        is_latest(imgs, j),
    ensures
        i == j,
{
    if i < j {
        assert(image_time(imgs[i]) < image_time(imgs[j]));
        assert(image_time(imgs[i]) <= image_time(imgs[j]));
    } else if j < i {
        assert(image_time(imgs[j]) < image_time(imgs[i]));
    }
}

fn tag_time(image: &String) -> (t: u64)
    ensures
        t as nat == image_time(image@),
{
    let cs = chars_of(image.as_str());
    let n = cs.len();
    match find_char(&cs, ':', 0, n) {
        None => {
            proof {
                if exists|p: int| first_colon_at(image@, p) {
                    let p = choose|p: int| first_colon_at(image@, p);
                    assert(cs@[p] == ':');
                }
            }
            0
        },
        Some(p) => {
            proof {
                assert(first_colon_at(image@, p as int)) by {
                    if image@.take(p as int).contains(':') {
                        let j = choose|j: int| 0 <= j < p && image@.take(p as int)[j] == ':';
                        assert(cs@[j] == ':');
                    }
                }
                let q = choose|q: int| first_colon_at(image@, q);
                if q < p {
                    assert(cs@[q] == ':');
                } else if q > p {
                    assert(image@.take(q)[p as int] == ':');
                }
                assert(image@.skip(p + 1) =~= cs@.subrange(p + 1, n as int));
            }
            match parse_u64_from(&cs, p + 1) {
                Some(t) => t,
                None => 0,
            }
        },
    }
}

/// The newest of `app_images`: the first of those with the greatest positive
/// time after the first `:`; `None` where no image carries one.
pub fn latest_tag(app_images: Vec<String>) -> (r: Option<String>)
    ensures
        opt_view(r) == latest_image(strs_view(app_images@)),
{
    let ghost imgs = strs_view(app_images@);
    let mut best: u64 = 0;
    let mut best_idx: Option<usize> = None;
    let mut i: usize = 0;
    while i < app_images.len()
        invariant
            imgs == strs_view(app_images@),
            i <= app_images.len(),
            best_idx is None <==> best == 0,
            forall|j: int| 0 <= j < i ==> image_time(#[trigger] imgs[j]) <= best,
            match best_idx {
                Some(b) => b < i && image_time(imgs[b as int]) == best && forall|j: int|
                    0 <= j < b ==> image_time(#[trigger] imgs[j]) < best,
                None => true,
            },
        decreases app_images.len() - i,
    {
        let t = tag_time(&app_images[i]);
        assert(imgs[i as int] == app_images@[i as int]@);
        if t > best {
            best = t;
            best_idx = Some(i);
        }
        i = i + 1;
    }
    match best_idx {
        Some(b) => {
            proof {
                assert(is_latest(imgs, b as int));
                let c = choose|c: int| is_latest(imgs, c);
                lemma_latest_unique(imgs, b as int, c);
            }
            Some(app_images[b].clone())
        },
        None => {
            proof {
                if exists|c: int| is_latest(imgs, c) {
                    let c = choose|c: int| is_latest(imgs, c);
                    assert(image_time(imgs[c]) <= 0);
                }
            }
            None
        },
    }
}


/// What the tags of the images built for application `name` begin with.
pub open spec fn image_prefix(project: Seq<char>, name: Seq<char>) -> Seq<char> {
    super::naming::image_name_spec(project, name)
}

/// `t` begins with `p`.
pub open spec fn has_prefix(t: Seq<char>, p: Seq<char>) -> bool {
    p.len() <= t.len() && t.take(p.len() as int) == p
}

/// The tags among `tags` that begin with `prefix`, in order.
pub open spec fn tagged_for(tags: Seq<Seq<char>>, prefix: Seq<char>) -> Seq<Seq<char>> {
    tags.filter(|t: Seq<char>| has_prefix(t, prefix))
}

/// The tags among `tags` that begin with `prefix`, in order.
pub fn tags_with_prefix(tags: Vec<String>, prefix: &String) -> (r: Vec<String>)
    ensures
        strs_view(r@) == tagged_for(strs_view(tags@), prefix@),
{
    let ghost all = strs_view(tags@);
    let mut r: Vec<String> = Vec::new();
    let mut i: usize = 0;
    assert(all.take(0).filter(|t: Seq<char>| has_prefix(t, prefix@)) =~= Seq::<Seq<char>>::empty()) by {
        reveal(Seq::filter);
    }
    assert(strs_view(r@) =~= Seq::<Seq<char>>::empty());
    while i < tags.len()
        invariant
            all == strs_view(tags@),
            i <= tags.len(),
            strs_view(r@) == all.take(i as int).filter(|t: Seq<char>| has_prefix(t, prefix@)),
        decreases tags.len() - i,
    {
        let keep = crate::text::starts_with(tags[i].as_str(), prefix.as_str());
        let ghost before = strs_view(r@);
        if keep {
            r.push(tags[i].clone());
            assert(strs_view(r@) =~= before.push(all[i as int]));
        } else {
            assert(strs_view(r@) =~= before);
        }
        proof {
            assert(all.take(i + 1).drop_last() =~= all.take(i as int));
            assert(all.take(i + 1).last() == all[i as int]);
            reveal(Seq::filter);
        }
        i = i + 1;
    }
    assert(all.take(tags.len() as int) =~= all);
    r
}

} // verus!
