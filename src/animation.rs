//! Frame-by-frame animations over images.
use vstd::prelude::*;
use crate::image::Image;

verus! {

/// The abstract state of an `Animation`.
pub struct AnimationView {
    pub frames: Seq<(Seq<u8>, nat, nat)>,
    /// The frame shown.
    pub index: nat,
    /// How many updates each frame stays.
    pub length: nat,
    /// Updates since the frame was last changed.
    pub timer: nat,
    /// The animation that follows this one, if any.
    pub next: Option<Seq<char>>,
    pub repeat: bool,
}

pub open spec fn string_view(s: Option<String>) -> Option<Seq<char>> {
    match s {
        Some(s) => Some(s@),
        None => None,
    }
}

/// A sequence of frames, each shown for `length` updates.
#[derive(Debug)]
pub struct Animation {
    images: Vec<Image>,
    index: usize,
    length: u32,
    curr_timer: u32,
    next: Option<String>,
    repeat: bool,
}

impl View for Animation {
    type V = AnimationView;

    closed spec fn view(&self) -> AnimationView {
        AnimationView {
            frames: self.images@.map_values(|i: Image| i@),
            index: self.index as nat,
            length: self.length as nat,
            timer: self.curr_timer as nat,
            next: string_view(self.next),
            repeat: self.repeat,
        }
    }
}

/// The state after one update: the timer advances (stopping at `u32::MAX`); once
/// it reaches `length`, a repeating animation moves to the next frame, wrapping
/// around, and restarts its timer. An animation without frames stays on frame 0.
pub open spec fn updated(a: AnimationView) -> AnimationView {
    let t = if a.timer < u32::MAX {
        a.timer + 1
    } else {
        a.timer
    };
    if t >= a.length && a.repeat {
        AnimationView {
            index: if a.frames.len() > 0 {
                ((a.index + 1) % a.frames.len()) as nat
            } else {
                0
            },
            timer: 0,
            ..a
        }
    } else {
        AnimationView { timer: t as nat, ..a }
    }
}

impl Animation {
    /// The frame shown is one of the frames, or there are none and it is the first.
    pub open spec fn wf(&self) -> bool {
        self@.index < self@.frames.len() || (self@.frames.len() == 0 && self@.index == 0)
    }

    pub fn change_length(&mut self, length: u32)
        requires
            old(self).wf(),
        ensures
            final(self).wf(),
            final(self)@ == (AnimationView { length: length as nat, ..old(self)@ }),
    {
        self.length = length;
    }

    /// The number of frames.
    pub fn frame_count(&self) -> (r: usize)
        ensures
            r == self@.frames.len(),
    {
        self.images.len()
    }

    /// The frame shown.
    pub fn get(&self) -> (r: &Image)
        requires
            self.wf(),
            self@.frames.len() > 0,
        ensures
            r@ == self@.frames[self@.index as int],
    {
        &self.images[self.index]
    }

    /// Advances the timer; when it has run for `length` updates, returns the name
    /// of the animation to follow, if any.
    pub fn update(&mut self) -> (r: Option<String>)
        requires
            old(self).wf(),
        ensures
            final(self).wf(),
            final(self)@ == updated(old(self)@),
            string_view(r) == (if (if old(self)@.timer < u32::MAX {
                old(self)@.timer + 1
            } else {
                old(self)@.timer
            }) >= old(self)@.length {
                old(self)@.next
            } else {
                None
            }),
    {
        let n = self.images.len();
        assert(n == 0 || self.index < n);
        if self.curr_timer < u32::MAX {
            self.curr_timer = self.curr_timer + 1;
        }
        if self.curr_timer >= self.length {
            if self.repeat {
                self.index = if n > 0 {
                    (self.index + 1) % n
                } else {
                    0
                };
                self.curr_timer = 0;
            }
            return match &self.next {
                Some(s) => Some(s.clone()),
                None => None,
            };
        }
        None
    }

    /// Back to the first frame, with the timer at zero.
    pub fn reset(&mut self)
        requires
            old(self).wf(),
        ensures
            final(self).wf(),
            final(self)@ == (AnimationView { index: 0, timer: 0, ..old(self)@ }),
    {
        self.curr_timer = 0;
        self.index = 0;
    }
}

/// Collects the parts of an animation. Unset parts default to: frame 0 alone,
/// one update per frame, repeating, no animation to follow.
pub struct AnimationBuilder {
    images: Option<Vec<usize>>,
    wait_time_between_2_img: Option<u32>,
    repeat: Option<bool>,
    next_animation: Option<String>,
}

/// The abstract contents of an `AnimationBuilder`.
pub struct AnimationBuilderView {
    pub images: Option<Seq<usize>>,
    pub wait_time: Option<u32>,
    pub repeat: Option<bool>,
    pub next_animation: Option<Seq<char>>,
}

impl View for AnimationBuilder {
    type V = AnimationBuilderView;

    closed spec fn view(&self) -> AnimationBuilderView {
        AnimationBuilderView {
            images: match self.images {
                Some(v) => Some(v@),
                None => None,
            },
            wait_time: self.wait_time_between_2_img,
            repeat: self.repeat,
            next_animation: string_view(self.next_animation),
        }
    }
}

/// The frame indexes that a builder selects.
pub open spec fn frame_indexes(b: AnimationBuilderView) -> Seq<usize> {
    match b.images {
        Some(v) => v,
        None => seq![0usize],
    }
}

/// The animation that a builder makes over `images`.
pub open spec fn built(b: AnimationBuilderView, images: Seq<(Seq<u8>, nat, nat)>) -> AnimationView {
    AnimationView {
        frames: frame_indexes(b).map_values(|i: usize| images[i as int]),
        index: 0,
        length: match b.wait_time {
            Some(t) => t as nat,
            None => 1,
        },
        timer: 0,
        next: b.next_animation,
        repeat: match b.repeat {
            Some(x) => x,
            None => true,
        },
    }
}

impl AnimationBuilder {
    pub fn new() -> (r: Self)
        ensures
            r@ == (AnimationBuilderView {
                images: None,
                wait_time: None,
                repeat: None,
                next_animation: None,
            }),
    {
        AnimationBuilder {
            images: None,
            wait_time_between_2_img: None,
            repeat: None,
            next_animation: None,
        }
    }

    /// Selects the frames, by index into the images given to `build`.
    pub fn register_images_index(self, indexes: Vec<usize>) -> (r: Self)
        ensures
            r@ == (AnimationBuilderView { images: Some(indexes@), ..self@ }),
    {
        AnimationBuilder { images: Some(indexes), ..self }
    }

    /// Sets how many updates each frame stays.
    pub fn change_wait_time(self, time: u32) -> (r: Self)
        ensures
            r@ == (AnimationBuilderView { wait_time: Some(time), ..self@ }),
    {
        AnimationBuilder { wait_time_between_2_img: Some(time), ..self }
    }

    /// Makes the animation stop on its frame instead of cycling.
    pub fn no_repeat(self) -> (r: Self)
        ensures
            r@ == (AnimationBuilderView { repeat: Some(false), ..self@ }),
    {
        AnimationBuilder { repeat: Some(false), ..self }
    }

    /// Names the animation that follows this one.
    pub fn next_animation(self, next: String) -> (r: Self)
        ensures
            r@ == (AnimationBuilderView { next_animation: Some(next@), ..self@ }),
    {
        AnimationBuilder { next_animation: Some(next), ..self }
    }

    /// The animation over copies of the selected images.
    pub fn build(self, images: &Vec<Image>) -> (r: Animation)
        requires
            forall|k: int|
                0 <= k < frame_indexes(self@).len() ==> frame_indexes(self@)[k] < images@.len(),
        ensures
            r.wf(),
            r@ == built(self@, images@.map_values(|i: Image| i@)),
    {
        let ghost bv = self@;
        let indexes: Vec<usize> = match self.images {
            Some(v) => v,
            None => {
                let mut v: Vec<usize> = Vec::new();
                v.push(0);
                v
            },
        };
        assert(indexes@ =~= frame_indexes(bv));
        let mut res: Vec<Image> = Vec::new();
        let mut k: usize = 0;
        while k < indexes.len()
            invariant
                k <= indexes@.len(),
                forall|j: int| 0 <= j < indexes@.len() ==> indexes@[j] < images@.len(),
                res@.len() == k,
                forall|j: int| 0 <= j < k ==> res@[j]@ == images@[indexes@[j] as int]@,
            decreases indexes@.len() - k,
        {
            let img = images[indexes[k]].clone();
            res.push(img);
            k += 1;
        }
        let r = Animation {
            images: res,
            index: 0,
            length: match self.wait_time_between_2_img {
                Some(t) => t,
                None => 1,
            },
            curr_timer: 0,
            next: self.next_animation,
            repeat: match self.repeat {
                Some(b) => b,
                None => true,
            },
        };
        assert(r@.frames =~= built(bv, images@.map_values(|i: Image| i@)).frames);
        r
    }
}

} // verus!
