//! Sprites: named animations cut from one sprite sheet.
use vstd::prelude::*;
use crate::animation::{
    built, frame_indexes, updated, Animation, AnimationBuilder, AnimationBuilderView,
    AnimationView,
};
use crate::image::{channel, sheet_byte, Color, Image};

verus! {

/// The abstract contents of a `SpriteBuilder`.
pub struct SpriteBuilderView {
    pub image: Option<(Seq<u8>, nat, nat)>,
    /// The size of one frame of the sheet.
    pub frame_size: Option<(usize, usize)>,
    pub animations: Seq<(Seq<char>, AnimationBuilderView)>,
}

/// Collects a sprite sheet, the size of its frames and named animations over them.
pub struct SpriteBuilder {
    raw_image: Option<Image>,
    image_size: Option<(usize, usize)>,
    animations: Vec<(String, AnimationBuilder)>,
}

impl View for SpriteBuilder {
    type V = SpriteBuilderView;

    closed spec fn view(&self) -> SpriteBuilderView {
        SpriteBuilderView {
            image: match self.raw_image {
                Some(i) => Some(i@),
                None => None,
            },
            frame_size: self.image_size,
            animations: self.animations@.map_values(
                |a: (String, AnimationBuilder)| (a.0@, a.1@),
            ),
        }
    }
}

/// The 10 by 10 red image that stands in for a missing sheet.
pub open spec fn placeholder_frame() -> (Seq<u8>, nat, nat) {
    (Seq::new(400, |j: int| channel(Color(255, 0, 0, 255), j % 4)), 10, 10)
}

/// The frames that a builder's sheet is cut into: all of its frames when a frame
/// size is set, the whole sheet when not, and the placeholder without a sheet.
pub open spec fn sheet_frames(v: SpriteBuilderView) -> Seq<(Seq<u8>, nat, nat)> {
    match (v.image, v.frame_size) {
        (Some(img), Some((w, h))) => {
            let cols = img.1 as int / w as int;
            Seq::new(
                (cols * (img.2 as int / h as int)) as nat,
                |k: int|
                    (
                        Seq::new(
                            (w * h * 4) as nat,
                            |j: int| sheet_byte(img.0, img.1 as int, w as int, h as int, cols, k, j),
                        ),
                        w as nat,
                        h as nat,
                    ),
            )
        },
        (Some(img), None) => seq![img],
        _ => seq![placeholder_frame()],
    }
}

/// The sheet can be cut as asked.
pub open spec fn cuttable(v: SpriteBuilderView) -> bool {
    match (v.image, v.frame_size) {
        (Some(img), Some((w, h))) => {
            &&& w > 0
            &&& h > 0
            &&& img.1 * img.2 * 4 <= img.0.len()
            &&& img.1 * img.2 == 0 || (img.1 as int % w as int == 0 && img.2 as int % h as int == 0)
        },
        _ => true,
    }
}

/// Every animation selects only frames of the sheet.
pub open spec fn frames_exist(v: SpriteBuilderView) -> bool {
    forall|a: int|
        #![trigger v.animations[a]]
        0 <= a < v.animations.len() ==> forall|k: int|
            0 <= k < frame_indexes(v.animations[a].1).len() ==> frame_indexes(v.animations[a].1)[k]
                < sheet_frames(v).len()
}

/// The abstract contents of a `Sprite`.
pub struct SpriteView {
    pub names: Seq<Seq<char>>,
    pub animations: Seq<AnimationView>,
    /// The name of the animation played.
    pub current: Seq<char>,
}

/// The index of the last of the first `k` names equal to `name`, or -1.
pub open spec fn find_last(names: Seq<Seq<char>>, name: Seq<char>, k: int) -> int
    decreases k,
{
    if k <= 0 {
        -1
    } else if names[k - 1] == name {
        k - 1
    } else {
        find_last(names, name, k - 1)
    }
}

proof fn lemma_find_last_range(names: Seq<Seq<char>>, name: Seq<char>, k: int)
    requires
        0 <= k <= names.len(),
    ensures
        -1 <= find_last(names, name, k) < k,
        find_last(names, name, k) >= 0 ==> names[find_last(names, name, k)] == name,
    decreases k,
{
    if k > 0 {
        lemma_find_last_range(names, name, k - 1);
    }
}

impl SpriteView {
    /// The animation played: the last one registered under the current name, or
    /// -1 when there is none.
    pub open spec fn playing(&self) -> int {
        find_last(self.names, self.current, self.names.len() as int)
    }

    pub open spec fn wf(&self) -> bool {
        &&& self.names.len() == self.animations.len()
        &&& forall|a: int|
            #![trigger self.animations[a]]
            0 <= a < self.animations.len() ==> self.animations[a].index
                < self.animations[a].frames.len() || (self.animations[a].frames.len() == 0
                && self.animations[a].index == 0)
    }

    /// No animation is played, or the one played has a frame to show.
    pub open spec fn shows_frame(&self) -> bool {
        self.playing() < 0 || self.animations[self.playing()].frames.len() > 0
    }
}

/// The sprite after the animation `name` is chosen: the animation it now plays,
/// if any, restarts from its first frame.
pub open spec fn played(s: SpriteView, name: Seq<char>) -> SpriteView {
    let s1 = SpriteView { current: name, ..s };
    if s1.playing() >= 0 {
        SpriteView {
            animations: s.animations.update(
                s1.playing(),
                AnimationView { index: 0, timer: 0, ..s.animations[s1.playing()] },
            ),
            ..s1
        }
    } else {
        s1
    }
}

/// Named animations; a name registered twice stands for its last animation.
#[derive(Debug)]
pub struct Sprite {
    names: Vec<String>,
    anims: Vec<Animation>,
    curr_animation: String,
}

impl View for Sprite {
    type V = SpriteView;

    closed spec fn view(&self) -> SpriteView {
        SpriteView {
            names: self.names@.map_values(|s: String| s@),
            animations: self.anims@.map_values(|a: Animation| a@),
            current: self.curr_animation@,
        }
    }
}

impl Sprite {
    pub open spec fn wf(&self) -> bool {
        self@.wf()
    }

    /// One animation, with the default settings, named by the empty string, over
    /// `images`.
    pub fn from_images(images: Vec<Image>) -> (r: Sprite)
        requires
            images@.len() > 0,
        ensures
            r.wf(),
            r@.names == seq![Seq::<char>::empty()],
            r@.animations == seq![
                built(
                    AnimationBuilderView {
                        images: None,
                        wait_time: None,
                        repeat: None,
                        next_animation: None,
                    },
                    images@.map_values(|i: Image| i@),
                ),
            ],
            r@.current == Seq::<char>::empty(),
    {
        let b = AnimationBuilder::new();
        assert(frame_indexes(b@) == seq![0usize]);
        let a = b.build(&images);
        let mut names: Vec<String> = Vec::new();
        names.push(String::new());
        let mut anims: Vec<Animation> = Vec::new();
        anims.push(a);
        let r = Sprite { names, anims, curr_animation: String::new() };
        assert(r@.names =~= seq![Seq::<char>::empty()]);
        assert(r@.animations =~= seq![a@]);
        r
    }

    fn find(&self) -> (r: Option<usize>)
        requires
            self.wf(),
        ensures
            match r {
                Some(k) => k == self@.playing(),
                None => self@.playing() < 0,
            },
    {
        let mut k: usize = self.names.len();
        proof {
            lemma_find_last_range(self@.names, self@.current, k as int);
        }
        while k > 0
            invariant
                k <= self.names@.len(),
                find_last(self@.names, self@.current, k as int) == self@.playing(),
            decreases k,
        {
            if self.names[k - 1] == self.curr_animation {
                return Some(k - 1);
            }
            k -= 1;
        }
        None
    }

    /// Whether `image` can be called: an animation without frames has nothing to
    /// show.
    pub fn can_show(&self) -> (r: bool)
        requires
            self.wf(),
        ensures
            r == self@.shows_frame(),
    {
        proof {
            lemma_find_last_range(self@.names, self@.current, self@.names.len() as int);
        }
        match self.find() {
            Some(k) => {
                assert(self@.animations[k as int] == self.anims@[k as int]@);
                self.anims[k].frame_count() > 0
            },
            None => true,
        }
    }

    /// The frame shown by the animation played, if there is one.
    pub fn image(&self) -> (r: Option<&Image>)
        requires
            self.wf(),
            self@.shows_frame(),
        ensures
            self@.playing() < 0 ==> r is None,
            self@.playing() >= 0 ==> r is Some && r.unwrap()@ == self@.animations[self@.playing()].frames[self@.animations[self@.playing()].index as int],
    {
        proof {
            lemma_find_last_range(self@.names, self@.current, self@.names.len() as int);
        }
        match self.find() {
            Some(k) => {
                assert(self@.animations[k as int] == self.anims@[k as int]@);
                Some(self.anims[k].get())
            },
            None => None,
        }
    }

    /// Plays the animation named `anim` from its start.
    pub fn animation(&mut self, anim: String)
        requires
            old(self).wf(),
        ensures
            final(self).wf(),
            final(self)@ == played(old(self)@, anim@),
    {
        self.curr_animation = anim;
        proof {
            lemma_find_last_range(self@.names, self@.current, self@.names.len() as int);
        }
        match self.find() {
            Some(k) => {
                let mut a = self.anims.remove(k);
                assert(a@ == old(self)@.animations[k as int]);
                a.reset();
                self.anims.insert(k, a);
                assert(self@.animations =~= old(self)@.animations.update(
                    k as int,
                    AnimationView { index: 0, timer: 0, ..old(self)@.animations[k as int] },
                ));
            },
            None => {},
        }
    }

    /// Advances the animation played, if there is one.
    pub fn update(&mut self)
        requires
            old(self).wf(),
        ensures
            final(self).wf(),
            final(self)@.current == old(self)@.current,
            final(self)@.names == old(self)@.names,
            old(self)@.playing() < 0 ==> final(self)@.animations == old(self)@.animations,
            old(self)@.playing() >= 0 ==> final(self)@.animations == old(self)@.animations.update(
                old(self)@.playing(),
                updated(old(self)@.animations[old(self)@.playing()]),
            ),
    {
        proof {
            lemma_find_last_range(self@.names, self@.current, self@.names.len() as int);
        }
        match self.find() {
            Some(k) => {
                let mut a = self.anims.remove(k);
                assert(a@ == old(self)@.animations[k as int]);
                let _ = a.update();
                self.anims.insert(k, a);
                assert(self@.animations =~= old(self)@.animations.update(
                    k as int,
                    updated(old(self)@.animations[k as int]),
                ));
            },
            None => {},
        }
    }
}

impl SpriteBuilder {
    pub fn new() -> (r: Self)
        ensures
            r@ == (SpriteBuilderView { image: None, frame_size: None, animations: Seq::empty() }),
    {
        let r = SpriteBuilder { raw_image: None, image_size: None, animations: Vec::new() };
        assert(r@.animations =~= Seq::empty());
        r
    }

    pub fn register_animation(self, name: String, animation: AnimationBuilder) -> (r: Self)
        ensures
            r@ == (SpriteBuilderView {
                animations: self@.animations.push((name@, animation@)),
                ..self@
            }),
    {
        let mut s = self;
        let ghost before = s@;
        s.animations.push((name, animation));
        assert(s@.animations =~= before.animations.push((name@, animation@)));
        s
    }

    pub fn add_image_from_raw(self, data: Vec<u8>, width: usize, height: usize) -> (r: Self)
        ensures
            r@ == (SpriteBuilderView { image: Some((data@, width as nat, height as nat)), ..self@ }),
    {
        SpriteBuilder { raw_image: Some(Image::from_raw(data, width, height)), ..self }
    }

    pub fn add_image(self, img: Image) -> (r: Self)
        ensures
            r@ == (SpriteBuilderView { image: Some(img@), ..self@ }),
    {
        SpriteBuilder { raw_image: Some(img), ..self }
    }

    /// Sets the size of one frame of the sheet.
    pub fn register_sprite_size(self, width: usize, height: usize) -> (r: Self)
        ensures
            r@ == (SpriteBuilderView { frame_size: Some((width, height)), ..self@ }),
    {
        SpriteBuilder { image_size: Some((width, height)), ..self }
    }

    /// Makes the pixels of colour `c` (alpha aside) of the sheet transparent.
    pub fn apply_transparancy_on(self, c: Color) -> (r: Self)
        requires
            self@.image is Some ==> self@.image.unwrap().0.len() % 4 == 0,
        ensures
            r@.frame_size == self@.frame_size,
            r@.animations == self@.animations,
            self@.image is None ==> r@.image is None,
            self@.image is Some ==> r@.image is Some && {
                let (d0, w0, h0) = self@.image.unwrap();
                let (d1, w1, h1) = r@.image.unwrap();
                &&& w1 == w0
                &&& h1 == h0
                &&& d1.len() == d0.len()
                &&& forall|i: int|
                    0 <= i < d1.len() ==> d1[i] == crate::image::keyed_byte(d0, c, i)
            },
    {
        let SpriteBuilder { raw_image, image_size, animations } = self;
        let raw_image = match raw_image {
            Some(img) => {
                let mut img = img;
                img.apply_transparency(c);
                Some(img)
            },
            None => None,
        };
        SpriteBuilder { raw_image, image_size, animations }
    }

    /// The sprite: the sheet is cut into frames and each animation is built over
    /// them. The first animation registered is played.
    pub fn build(self) -> (r: Sprite)
        requires
            cuttable(self@),
            frames_exist(self@),
        ensures
            r.wf(),
            r@.names == self@.animations.map_values(|a: (Seq<char>, AnimationBuilderView)| a.0),
            r@.animations == self@.animations.map_values(
                |a: (Seq<char>, AnimationBuilderView)| built(a.1, sheet_frames(self@)),
            ),
            r@.current == (if self@.animations.len() > 0 {
                self@.animations[0].0
            } else {
                Seq::<char>::empty()
            }),
    {
        let ghost v = self@;
        let SpriteBuilder { raw_image, image_size, animations } = self;
        let sprites: Vec<Image> = match raw_image {
            Some(img) => match image_size {
                Some((w, h)) => {
                    let parts = img.split(w, h);
                    proof {
                        let frames = sheet_frames(v);
                        assert forall|k: int| 0 <= k < parts@.len() implies parts@[k]@ == frames[k] by {
                            assert(parts@[k]@.0 =~= frames[k].0);
                        }
                    }
                    parts
                },
                None => {
                    let mut one: Vec<Image> = Vec::new();
                    one.push(img);
                    one
                },
            },
            None => {
                let mut one: Vec<Image> = Vec::new();
                let red = Image::rec(Color::red(), 10, 10);
                assert(red@.0 =~= placeholder_frame().0);
                one.push(red);
                one
            },
        };
        let ghost frames = sprites@.map_values(|i: Image| i@);
        assert(frames =~= sheet_frames(v));
        let mut names: Vec<String> = Vec::new();
        let mut anims: Vec<Animation> = Vec::new();
        let mut rest = animations;
        let total = rest.len();
        let mut k: usize = 0;
        while k < total
            invariant
                total == v.animations.len(),
                k <= total,
                rest@.len() == total - k,
                forall|j: int|
                    #![trigger rest@[j]]
                    0 <= j < rest@.len() ==> (rest@[j].0@, rest@[j].1@) == v.animations[k + j],
                frames == sprites@.map_values(|i: Image| i@),
                frames == sheet_frames(v),
                frames_exist(v),
                names@.len() == k,
                anims@.len() == k,
                forall|j: int|
                    #![trigger names@[j]]
                    0 <= j < k ==> names@[j]@ == v.animations[j].0,
                forall|j: int|
                    #![trigger anims@[j]]
                    0 <= j < k ==> anims@[j]@ == built(v.animations[j].1, frames)
                        && anims@[j].wf(),
            decreases total - k,
        {
            let (name, b) = rest.remove(0);
            assert(v.animations[k as int] == (name@, b@));
            assert forall|j: int| 0 <= j < frame_indexes(b@).len() implies frame_indexes(b@)[j]
                < sprites@.len() by {
                assert(frame_indexes(v.animations[k as int].1)[j] < sheet_frames(v).len());
            }
            let a = b.build(&sprites);
            names.push(name);
            anims.push(a);
            k += 1;
        }
        let current = if names.len() > 0 {
            names[0].clone()
        } else {
            String::new()
        };
        let r = Sprite { names, anims, curr_animation: current };
        assert(r@.names =~= v.animations.map_values(|a: (Seq<char>, AnimationBuilderView)| a.0));
        assert(r@.animations =~= v.animations.map_values(
            |a: (Seq<char>, AnimationBuilderView)| built(a.1, sheet_frames(v)),
        ));
        r
    }
}

} // verus!
