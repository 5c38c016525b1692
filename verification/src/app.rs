//! The window of the panel.

use crate::files::{load_request, request_for, LoadRequest};
use crate::number::{defined_everywhere, ratio_of, Number};
use crate::waterfall::{total_len, GUIState, Purpose};
use crossbeam_channel::Receiver;
use vstd::prelude::*;

verus! {

/// The window: the state of the panel and what it shares with the rest of the program. `G` is the
/// handle to the sound generator, `T` a texture on the graphics card, `A` the audio stream.
#[verifier::reject_recursive_types(V)]
pub struct EngineSoundApp<V, G, T, A> {
    pub generator: G,
    pub gui_state: GUIState<V>,
    pub waterfall_texture: Option<T>,
    pub audio: A,
    pub sample_rate: u32,
    pub allow_drag_drop: bool,
}

/// What the texture of the waterfall needs.
#[derive(Clone, Copy, PartialEq, Eq, Structural, Debug)]
pub enum TextureUpdate {
    /// Nothing.
    Keep,
    /// The picture of the waterfall in place of the one it shows.
    Replace,
    /// To be made, with the picture of the waterfall.
    Load,
}

/// The requests to load the dropped files that have a path, in the order they were dropped.
pub open spec fn requests_for(files: Seq<Option<String>>, sample_rate: u32) -> Seq<LoadRequest>
    decreases files.len(),
{
    if files.len() == 0 {
        Seq::empty()
    } else {
        let before = requests_for(files.drop_last(), sample_rate);
        match files.last() {
            Some(path) => before.push(request_for(path, sample_rate)),
            None => before,
        }
    }
}

/// What the texture of the waterfall needs, given the handle that is kept, if there is one, and
/// whether the waterfall was updated.
pub open spec fn update_for<T>(texture: Option<T>, updated: bool) -> TextureUpdate {
    if texture is None {
        TextureUpdate::Load
    } else if updated {
        TextureUpdate::Replace
    } else {
        TextureUpdate::Keep
    }
}

impl<V: Number, G, T, A> EngineSoundApp<V, G, T, A> {
    /// A window that shows what comes in through `input`.
    pub fn new(
        generator: G,
        input: Receiver<Vec<V>>,
        audio: A,
        sample_rate: u32,
        allow_drag_drop: bool,
    ) -> (r: Self)
        requires
            defined_everywhere::<V>(),
        ensures
            r.generator == generator,
            r.audio == audio,
            r.sample_rate == sample_rate,
            r.allow_drag_drop == allow_drag_drop,
            r.waterfall_texture is None,
            r.gui_state.well_formed(),
            r.gui_state.channel() == input,
            r.gui_state.received() == Seq::<Vec<V>>::empty(),
            exists|rest: V| #[trigger]
                ratio_of(7, 100, rest) && r.gui_state.cells() == Seq::new(
                    total_len() as nat,
                    |i: int| rest,
                ),
            forall|purpose: Purpose| #[trigger] r.gui_state.directory_for(purpose) is None,
    {
        EngineSoundApp {
            generator,
            gui_state: GUIState::new(input),
            waterfall_texture: None,
            audio,
            sample_rate,
            allow_drag_drop,
        }
    }

    /// What the texture of the waterfall needs, given whether the waterfall was updated.
    pub fn texture_update(&self, updated: bool) -> (r: TextureUpdate)
        ensures
            r == update_for(self.waterfall_texture, updated),
    {
        if self.waterfall_texture.is_none() {
            TextureUpdate::Load
        } else if updated {
            TextureUpdate::Replace
        } else {
            TextureUpdate::Keep
        }
    }

    /// Keeps the handle of the texture that was loaded.
    pub fn keep_texture(&mut self, texture: T)
        ensures
            *final(self) == (EngineSoundApp {
                waterfall_texture: Some(texture),
                ..*old(self)
            }),
    {
        self.waterfall_texture = Some(texture);
    }

    /// The configurations to load when files are dropped on the window: each file that has a path,
    /// in order, or none where dropping is not allowed.
    pub fn dropped(&self, files: &Vec<Option<String>>) -> (r: Vec<LoadRequest>)
        ensures
            r@ == if self.allow_drag_drop {
                requests_for(files@, self.sample_rate)
            } else {
                Seq::empty()
            },
    {
        let mut requests: Vec<LoadRequest> = Vec::new();
        if !self.allow_drag_drop {
            return requests;
        }
        let mut i: usize = 0;
        while i < files.len()
            invariant
                i <= files@.len(),
                requests@ == requests_for(files@.take(i as int), self.sample_rate),
            decreases files.len() - i,
        {
            assert(files@.take(i + 1).drop_last() =~= files@.take(i as int));
            if let Some(path) = &files[i] {
                requests.push(load_request(path.clone(), self.sample_rate));
            }
            i += 1;
        }
        assert(files@.take(i as int) =~= files@);
        requests
    }
}

/// Dropping files in two goes loads the same configurations in the same order as dropping them
/// all at once.
pub proof fn law_dropped_files_load_in_order(
    first: Seq<Option<String>>,
    second: Seq<Option<String>>,
    sample_rate: u32,
)
    ensures
        requests_for(first + second, sample_rate) == requests_for(first, sample_rate)
            + requests_for(second, sample_rate),
    decreases second.len(),
{
    if second.len() == 0 {
        assert(first + second =~= first);
    } else {
        law_dropped_files_load_in_order(first, second.drop_last(), sample_rate);
        assert((first + second).drop_last() =~= first + second.drop_last());
    }
}

/// Frame after frame, `updated` says whether the waterfall was updated and `updates` what its
/// texture needed. `textures` are the handles kept before the first frame, after it, and so on:
/// where the texture was loaded its handle was kept, and otherwise the handle stayed.
pub open spec fn frames_of<T>(
    textures: Seq<Option<T>>,
    updated: Seq<bool>,
    updates: Seq<TextureUpdate>,
) -> bool {
    &&& textures.len() == updated.len() + 1
    &&& updates.len() == updated.len()
    &&& forall|i: int|
        0 <= i < updated.len() ==> #[trigger] updates[i] == update_for(textures[i], updated[i])
    &&& forall|i: int|
        0 <= i < updated.len() ==> if #[trigger] updates[i] is Load {
            textures[i + 1] is Some
        } else {
            textures[i + 1] == textures[i]
        }
}

/// The texture of a new window is loaded once, in the first frame, and is there from then on. In a
/// later frame it is replaced exactly where the waterfall was updated.
pub proof fn law_the_texture_is_loaded_once<T>(
    textures: Seq<Option<T>>,
    updated: Seq<bool>,
    updates: Seq<TextureUpdate>,
)
    requires
        frames_of(textures, updated, updates),
        textures.first() is None,
    ensures
        updates.len() > 0 ==> updates[0] is Load,
        forall|i: int| 0 < i < textures.len() ==> #[trigger] textures[i] is Some,
        forall|i: int|
            0 < i < updates.len() ==> #[trigger] updates[i] == if updated[i] {
                TextureUpdate::Replace
            } else {
                TextureUpdate::Keep
            },
{
    assert forall|i: int| 0 < i < textures.len() implies #[trigger] textures[i] is Some by {
        lemma_texture_stays(textures, updated, updates, i);
    }
    assert forall|i: int| 0 < i < updates.len() implies #[trigger] updates[i] == if updated[i] {
        TextureUpdate::Replace
    } else {
        TextureUpdate::Keep
    } by {
        lemma_texture_stays(textures, updated, updates, i);
    }
}

proof fn lemma_texture_stays<T>(
    textures: Seq<Option<T>>,
    updated: Seq<bool>,
    updates: Seq<TextureUpdate>,
    i: int,
)
    requires
        frames_of(textures, updated, updates),
        textures.first() is None,
        0 < i < textures.len(),
    ensures
        textures[i] is Some,
    decreases i,
{
    let before = updates[i - 1];
    if i > 1 {
        lemma_texture_stays(textures, updated, updates, i - 1);
    }
}

/// The texture is loaded where there is none yet. Where there is one, it is replaced exactly where
/// the waterfall was updated.
pub proof fn law_the_texture_follows_the_waterfall<V: Number, G, T, A>(
    app: &EngineSoundApp<V, G, T, A>,
    updated: bool,
    r: TextureUpdate,
)
    requires
        call_ensures(EngineSoundApp::<V, G, T, A>::texture_update, (app, updated), r),
    ensures
        r == TextureUpdate::Load <==> app.waterfall_texture is None,
        r == TextureUpdate::Replace <==> app.waterfall_texture is Some && updated,
        r == TextureUpdate::Keep <==> app.waterfall_texture is Some && !updated,
{
}

/// How many of `files` have a path.
pub open spec fn paths_in(files: Seq<Option<String>>) -> nat
    decreases files.len(),
{
    if files.len() == 0 {
        0
    } else {
        paths_in(files.drop_last()) + if files.last() is Some {
            1nat
        } else {
            0
        }
    }
}

/// Every dropped file that has a path is asked for, in the order they were dropped, at the sample
/// rate of the window, and as JSON exactly where its path ends in "json". Where dropping is not
/// allowed, none is.
pub proof fn law_every_dropped_file_with_a_path_is_loaded<V: Number, G, T, A>(
    app: &EngineSoundApp<V, G, T, A>,
    files: &Vec<Option<String>>,
    r: Vec<LoadRequest>,
    i: int,
)
    requires
        call_ensures(EngineSoundApp::<V, G, T, A>::dropped, (app, files), r),
        0 <= i < files@.len(),
    ensures
        !app.allow_drag_drop ==> r@.len() == 0,
        app.allow_drag_drop ==> r@.len() == paths_in(files@),
        app.allow_drag_drop && files@[i] is Some ==> ({
            let request = r@[paths_in(files@.take(i)) as int];
            let path = files@[i]->0;
            &&& paths_in(files@.take(i)) < r@.len()
            &&& request.path == path
            &&& request.sample_rate == app.sample_rate
            &&& request.json <==> exists|stem: Seq<char>| path@ == #[trigger] (stem + "json"@)
        }),
{
    if app.allow_drag_drop {
        lemma_requests(files@, app.sample_rate, i);
        if let Some(path) = files@[i] {
            let request = r@[paths_in(files@.take(i)) as int];
            lemma_request(path, app.sample_rate, request);
        }
    }
}

proof fn lemma_request(path: String, sample_rate: u32, r: LoadRequest)
    requires
        r == request_for(path, sample_rate),
    ensures
        r.path == path,
        r.sample_rate == sample_rate,
        r.json <==> exists|stem: Seq<char>| path@ == #[trigger] (stem + "json"@),
{
    reveal_strlit("json");
    let text = path@;
    let n = text.len();
    if r.json {
        let stem = text.take(n - 4);
        assert(text =~= stem + text.subrange(n - 4, n as int));
        assert(text == stem + "json"@);
    }
    assert forall|stem: Seq<char>| path@ == #[trigger] (stem + "json"@) implies r.json by {
        assert(text.subrange(n - 4, n as int) =~= "json"@);
    }
}

proof fn lemma_requests(files: Seq<Option<String>>, sample_rate: u32, i: int)
    requires
        0 <= i < files.len(),
    ensures
        requests_for(files, sample_rate).len() == paths_in(files),
        files[i] is Some ==> paths_in(files.take(i)) < paths_in(files) && requests_for(
            files,
            sample_rate,
        )[paths_in(files.take(i)) as int] == request_for(files[i]->0, sample_rate),
    decreases files.len(),
{
    let before = files.drop_last();
    if before.len() > 0 {
        lemma_requests(
            before,
            sample_rate,
            if i < before.len() {
                i
            } else {
                0
            },
        );
    } else {
        assert(requests_for(before, sample_rate).len() == 0 && paths_in(before) == 0);
    }
    if i < before.len() {
        assert(before.take(i) =~= files.take(i));
    } else {
        assert(files.take(i) =~= before);
    }
}

/// A new window has what it was made with, no texture, and a waterfall that shows what comes in
/// through its channel.
pub proof fn law_a_new_window_has_what_it_was_made_with<V: Number, G, T, A>(
    generator: G,
    input: Receiver<Vec<V>>,
    audio: A,
    sample_rate: u32,
    allow_drag_drop: bool,
    r: EngineSoundApp<V, G, T, A>,
)
    requires
        call_ensures(
            EngineSoundApp::<V, G, T, A>::new,
            (generator, input, audio, sample_rate, allow_drag_drop),
            r,
        ),
    ensures
        r.generator == generator,
        r.audio == audio,
        r.sample_rate == sample_rate,
        r.allow_drag_drop == allow_drag_drop,
        r.waterfall_texture is None,
        r.gui_state.channel() == input,
        r.gui_state.received().len() == 0,
        r.gui_state.cells().len() == 25600,
        forall|i: int, j: int|
            #![trigger r.gui_state.cells()[i], r.gui_state.cells()[j]]
            0 <= i < 25600 && 0 <= j < 25600 ==> r.gui_state.cells()[i] == r.gui_state.cells()[j],
{
}

}
