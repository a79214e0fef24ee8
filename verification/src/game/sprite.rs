//! Sprite playback: which frame of which animation a sprite shows, frame
//! by frame.
use vstd::prelude::*;

verus! {

/// The playback state of a sprite: the animation shown and the one asked
/// for (by name), the frame shown and how many ticks it has been shown.
#[derive(Debug)]
pub struct Playback {
    pub current_frame: usize,
    pub frame_counter: u32,
    pub current_animation: String,
    pub next_animation: String,
    pub playing: bool,
}

/// The state of a playback, by the views of its names.
pub struct PlaybackView {
    pub current_frame: int,
    pub frame_counter: int,
    pub current_animation: Seq<char>,
    pub next_animation: Seq<char>,
    pub playing: bool,
}

impl View for Playback {
    type V = PlaybackView;

    open spec fn view(&self) -> PlaybackView {
        PlaybackView {
            current_frame: self.current_frame as int,
            frame_counter: self.frame_counter as int,
            current_animation: self.current_animation@,
            next_animation: self.next_animation@,
            playing: self.playing,
        }
    }
}

impl PlaybackView {
    /// Whether a tick can run: it needs the frame shown to exist when the
    /// animation shown is the one asked for.
    pub open spec fn can_tick(self, durations: Seq<u32>) -> bool {
        self.playing && self.current_animation == self.next_animation ==> {
            &&& self.current_frame < durations.len()
            &&& self.frame_counter < u32::MAX
        }
    }

    /// One tick, where `durations` are the frame durations (in ticks) of
    /// the animation shown.  A stopped playback stays as it is; a playback
    /// asked for another animation starts it at its first frame; otherwise
    /// the frame is shown one tick longer, and once it has been shown for
    /// its duration the next frame (cyclically) is shown from zero.
    pub open spec fn ticked(self, durations: Seq<u32>) -> PlaybackView {
        if !self.playing {
            self
        } else if self.current_animation != self.next_animation {
            PlaybackView {
                current_animation: self.next_animation,
                current_frame: 0,
                frame_counter: 0,
                ..self
            }
        } else if self.frame_counter + 1 >= durations[self.current_frame] {
            PlaybackView {
                frame_counter: 0,
                current_frame: (self.current_frame + 1) % (durations.len() as int),
                ..self
            }
        } else {
            PlaybackView { frame_counter: self.frame_counter + 1, ..self }
        }
    }

    /// `n` ticks of an animation with frame durations `durations`.
    pub open spec fn ticked_n(self, durations: Seq<u32>, n: nat) -> PlaybackView
        decreases n,
    {
        if n == 0 {
            self
        } else {
            self.ticked(durations).ticked_n(durations, (n - 1) as nat)
        }
    }
}

impl Playback {
    /// Playback of `animation` from its first frame.
    pub fn new(animation: String) -> (r: Playback)
        ensures
            r@ == (PlaybackView {
                current_frame: 0,
                frame_counter: 0,
                current_animation: animation@,
                next_animation: animation@,
                playing: true,
            }),
    {
        let next = animation.clone();
        Playback {
            current_frame: 0,
            frame_counter: 0,
            current_animation: animation,
            next_animation: next,
            playing: true,
        }
    }

    /// Stops the playback on the frame shown.
    pub fn stop(&mut self)
        ensures
            final(self)@ == (PlaybackView { playing: false, ..old(self)@ }),
    {
        self.playing = false;
    }

    /// Plays `animation`: it is shown from the next tick on, unless it is
    /// already the one asked for.  The sprite must have an animation of
    /// that name.
    pub fn play(&mut self, animation: &str)
        ensures
            final(self)@ == (PlaybackView {
                playing: true,
                next_animation: animation@,
                ..old(self)@
            }),
    {
        self.playing = true;
        let name: String = animation.to_owned();
        if self.next_animation == name {
            return;
        }
        self.next_animation = name;
    }

    /// One tick of the playback; `durations` are the frame durations of the
    /// animation shown.
    pub fn tick(&mut self, durations: &[u32])
        requires
            old(self)@.can_tick(durations@),
        ensures
            final(self)@ == old(self)@.ticked(durations@),
    {
        if !self.playing {
            return;
        }
        if self.current_animation != self.next_animation {
            self.current_animation = self.next_animation.clone();
            self.current_frame = 0;
            self.frame_counter = 0;
            return;
        }
        let duration = durations[self.current_frame];
        self.frame_counter = self.frame_counter + 1;
        if self.frame_counter >= duration {
            self.frame_counter = 0;
            self.current_frame = (self.current_frame + 1) % durations.len();
        }
    }
}

/// A tick keeps the frame shown within the animation, so ticking can go
/// on for as long as the counter has room.
pub proof fn lemma_tick_keeps_frame(p: PlaybackView, durations: Seq<u32>)
    requires
        p.playing,
        p.current_animation == p.next_animation,
        0 <= p.current_frame < durations.len(),
        0 <= p.frame_counter,
    ensures
        0 <= p.ticked(durations).current_frame < durations.len(),
        p.ticked(durations).current_animation == p.current_animation,
{
}

/// A frame of duration `d >= 1` shown from a fresh counter stays on for
/// `d` ticks: after `k < d` ticks it is still shown with the counter at
/// `k`, and after `d` ticks the next frame (cyclically) is shown from zero.
pub proof fn lemma_frame_duration(p: PlaybackView, durations: Seq<u32>, k: nat)
    requires
        p.playing,
        p.current_animation == p.next_animation,
        0 <= p.current_frame < durations.len(),
        p.frame_counter == 0,
        durations[p.current_frame] >= 1,
        k <= durations[p.current_frame],
    ensures
        k < durations[p.current_frame] ==> p.ticked_n(durations, k) == (PlaybackView {
            frame_counter: k as int,
            ..p
        }),
        k == durations[p.current_frame] ==> p.ticked_n(durations, k) == (PlaybackView {
            frame_counter: 0,
            current_frame: (p.current_frame + 1) % (durations.len() as int),
            ..p
        }),
{
    lemma_frame_duration_from(p, durations, 0, k);
}

/// `lemma_frame_duration` from a counter at `c`.
proof fn lemma_frame_duration_from(p: PlaybackView, durations: Seq<u32>, c: nat, k: nat)
    requires
        p.playing,
        p.current_animation == p.next_animation,
        0 <= p.current_frame < durations.len(),
        p.frame_counter == c,
        c + k <= durations[p.current_frame],
        c < durations[p.current_frame],
    ensures
        c + k < durations[p.current_frame] ==> p.ticked_n(durations, k) == (PlaybackView {
            frame_counter: (c + k) as int,
            ..p
        }),
        c + k == durations[p.current_frame] && k >= 1 ==> p.ticked_n(durations, k)
            == (PlaybackView {
            frame_counter: 0,
            current_frame: (p.current_frame + 1) % (durations.len() as int),
            ..p
        }),
    decreases k,
{
    if k > 0 {
        let q = p.ticked(durations);
        if c + 1 < durations[p.current_frame] {
            assert(q == (PlaybackView { frame_counter: (c + 1) as int, ..p }));
            lemma_frame_duration_from(q, durations, c + 1, (k - 1) as nat);
        } else {
            assert(k == 1);
            assert(q.ticked_n(durations, 0) == q);
        }
    }
}

/// A stopped playback stays exactly as it is, however often it is ticked:
/// in particular it stays on the frame shown when it was stopped.
pub proof fn lemma_stopped_stays(p: PlaybackView, durations: Seq<u32>, n: nat)
    requires
        !p.playing,
    ensures
        p.ticked(durations) == p,
        p.ticked_n(durations, n) == p,
    decreases n,
{
    if n > 0 {
        lemma_stopped_stays(p, durations, (n - 1) as nat);
    }
}

/// After `play` of another animation, the next tick shows that animation
/// from its first frame.
pub proof fn lemma_play_switches(p: PlaybackView, durations: Seq<u32>, name: Seq<char>)
    requires
        name != p.current_animation,
    ensures
        ({
            let asked = PlaybackView { playing: true, next_animation: name, ..p };
            let q = asked.ticked(durations);
            q.current_animation == name && q.current_frame == 0 && q.frame_counter == 0
                && q.playing
        }),
{
}

} // verus!
