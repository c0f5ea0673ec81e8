use vstd::prelude::*;
use vstd::string::StringSliceAdditionalSpecFns;
use vstd::utf8::encode_utf8;

use crate::lightstrip::{
    color_at, hex_digit_byte, hex_digit_value, is_hex_digit, parse_color_at, Message,
    MessageView, Pixel,
};
use crate::modes::{effects_view, Effect, EffectView, ModeTrait, MusicCommand, MusicCommandView};

verus! {

/// A colour code `#` followed by six hexadecimal digits starts at byte `i`.
pub open spec fn code_at(s: Seq<u8>, i: int) -> bool {
    &&& 0 <= i
    &&& i + 7 <= s.len()
    &&& s[i] == 0x23
    &&& forall|k: int| 1 <= k < 7 ==> #[trigger] is_hex_digit(s[i + k])
}

/// Where the colour codes start, scanning from byte `from`: the leftmost
/// code, then the leftmost one after its end, and so on (the matches of
/// `#[0-9a-fA-F]{6}`, which never overlap).
pub open spec fn code_starts(s: Seq<u8>, from: int) -> Seq<int>
    decreases s.len() - from,
{
    if from < 0 || from >= s.len() {
        Seq::empty()
    } else if code_at(s, from) {
        seq![from] + code_starts(s, from + 7)
    } else {
        code_starts(s, from + 1)
    }
}

/// The colour written by the code that starts at byte `i`.
pub open spec fn code_color(s: Seq<u8>, i: int) -> Pixel {
    Pixel {
        r: (16 * hex_digit_value(s[i + 1]) + hex_digit_value(s[i + 2])) as u8,
        g: (16 * hex_digit_value(s[i + 3]) + hex_digit_value(s[i + 4])) as u8,
        b: (16 * hex_digit_value(s[i + 5]) + hex_digit_value(s[i + 6])) as u8,
    }
}

/// The colours of the codes from byte `from` on, in order.
pub open spec fn colors_from(s: Seq<u8>, from: int) -> Seq<Pixel> {
    code_starts(s, from).map_values(|i: int| code_color(s, i))
}

/// The colours written in a text's bytes, in order.
pub open spec fn colors_in(s: Seq<u8>) -> Seq<Pixel> {
    colors_from(s, 0)
}

/// A code reads as its colour.
pub proof fn lemma_code_parses(s: Seq<u8>, i: int)
    requires
        code_at(s, i),
    ensures
        color_at(s, i) == Ok::<Pixel, crate::lightstrip::ParseColorError>(code_color(s, i)),
{
    assert(is_hex_digit(s[i + 1]));
    assert(is_hex_digit(s[i + 2]));
    assert(is_hex_digit(s[i + 3]));
    assert(is_hex_digit(s[i + 4]));
    assert(is_hex_digit(s[i + 5]));
    assert(is_hex_digit(s[i + 6]));
}

fn code_at_exec(bytes: &[u8], i: usize) -> (yes: bool)
    ensures
        yes == code_at(bytes@, i as int),
{
    let n = bytes.len();
    if i > n || n - i < 7 || bytes[i] != 0x23 {
        return false;
    }
    let mut k: usize = 1;
    while k < 7
        invariant
            1 <= k <= 7,
            i + 7 <= n == bytes@.len(),
            bytes@[i as int] == 0x23,
            forall|j: int| 1 <= j < k ==> #[trigger] is_hex_digit(bytes@[i + j]),
        decreases 7 - k,
    {
        if !hex_digit_byte(bytes[i + k]) {
            return false;
        }
        k = k + 1;
    }
    true
}

/// The colours written as `#rrggbb` codes in the bytes, in order.
pub fn colors_in_bytes(bytes: &[u8]) -> (colors: Vec<Pixel>)
    ensures
        colors@ == colors_in(bytes@),
{
    let n = bytes.len();
    let mut colors: Vec<Pixel> = Vec::new();
    let mut i: usize = 0;
    while i < n
        invariant
            n == bytes@.len(),
            i <= n,
            colors_in(bytes@) == colors@ + colors_from(bytes@, i as int),
        decreases n - i,
    {
        if code_at_exec(bytes, i) {
            proof {
                lemma_code_parses(bytes@, i as int);
                assert(colors_from(bytes@, i as int) =~= seq![code_color(bytes@, i as int)]
                    + colors_from(bytes@, i + 7));
            }
            match parse_color_at(bytes, i) {
                Ok(color) => colors.push(color),
                Err(_) => {},
            }
            i = i + 7;
        } else {
            i = i + 1;
        }
    }
    assert(colors_from(bytes@, n as int) =~= Seq::empty());
    colors
}

/// The mode that plays the music player's playlists, one at a time.
#[derive(Debug)]
pub struct MusicMode {
    playlists: Vec<String>,
    current_playlist: usize,
}

pub struct MusicModeView {
    pub playlists: Seq<Seq<char>>,
    pub current: int,
}

impl View for MusicMode {
    type V = MusicModeView;

    closed spec fn view(&self) -> MusicModeView {
        MusicModeView {
            playlists: self.playlists@.map_values(|p: String| p@),
            current: self.current_playlist as int,
        }
    }
}

/// The current playlist is one of the playlists, or the first position of
/// an empty list.
pub open spec fn in_range(v: MusicModeView) -> bool {
    0 <= v.current && (v.current < v.playlists.len() || v.current == 0)
}

/// The state after the red button: the next playlist, wrapping round.
pub open spec fn next_playlist(v: MusicModeView) -> MusicModeView {
    MusicModeView { playlists: v.playlists, current: (v.current + 1) % (v.playlists.len() as int) }
}

/// The state after the green button: the previous playlist, wrapping round.
pub open spec fn previous_playlist(v: MusicModeView) -> MusicModeView {
    MusicModeView {
        playlists: v.playlists,
        current: if v.current >= 1 { v.current - 1 } else { v.playlists.len() - 1 },
    }
}

/// Flash each colour written in the name.
pub open spec fn flash_effects(colors: Seq<Pixel>) -> Seq<EffectView> {
    colors.map_values(|c: Pixel| EffectView::Show(MessageView::Chase(c)))
}

/// Play the named playlist, then flash each colour written in its name.
pub open spec fn play_effects(name: Seq<char>) -> Seq<EffectView> {
    seq![EffectView::Music(MusicCommandView::PlayPlaylist(name))] + flash_effects(
        colors_in(encode_utf8(name)),
    )
}

/// Play the current playlist.
pub open spec fn play_current_effects(v: MusicModeView) -> Seq<EffectView> {
    play_effects(v.playlists[v.current])
}

impl MusicMode {
    #[verifier::type_invariant]
    spec fn current_in_range(self) -> bool {
        self.current_playlist < self.playlists@.len() || self.current_playlist == 0
    }

    /// The mode over the player's playlists, starting at the first one.
    pub fn create(playlists: Vec<String>) -> (mode: MusicMode)
        ensures
            in_range(mode@),
            mode@.playlists == playlists@.map_values(|p: String| p@),
            mode@.current == 0,
    {
        MusicMode { playlists, current_playlist: 0 }
    }

    /// Position of the current playlist.
    pub fn current_playlist(&self) -> (i: usize)
        ensures
            i == self@.current,
    {
        self.current_playlist
    }

    /// Plays the current playlist.
    pub fn start_current_playlist(&mut self) -> (effects: Vec<Effect>)
        requires
            old(self)@.playlists.len() > 0,
        ensures
            final(self)@ == old(self)@,
            effects_view(effects@) == play_current_effects(old(self)@),
    {
        proof {
            use_type_invariant(&*self);
        }
        let name = self.playlists[self.current_playlist].clone();
        self.start_playlist(&name)
    }

    /// Plays the named playlist, then flashes each colour written in its name.
    pub fn start_playlist(&mut self, name: &String) -> (effects: Vec<Effect>)
        ensures
            final(self)@ == old(self)@,
            effects_view(effects@) == play_effects(name@),
    {
        let colors = self.colors_for_playlist(name);
        let mut effects: Vec<Effect> = Vec::new();
        effects.push(Effect::Music(MusicCommand::PlayPlaylist(name.clone())));
        for i in 0..colors.len()
            invariant
                effects@.len() == i + 1,
                effects@[0]@ == EffectView::Music(MusicCommandView::PlayPlaylist(name@)),
                forall|k: int|
                    0 <= k < i ==> #[trigger] effects@[k + 1]@ == EffectView::Show(
                        MessageView::Chase(colors@[k]),
                    ),
        {
            effects.push(Effect::Show(Message::Chase(colors[i])));
        }
        assert(effects_view(effects@) =~= play_effects(name@)) by {
            assert forall|j: int| 1 <= j < effects@.len() implies #[trigger] effects_view(effects@)[j]
                == play_effects(name@)[j] by {
                assert(effects@[(j - 1) + 1]@ == EffectView::Show(MessageView::Chase(colors@[j - 1])));
            }
        }
        effects
    }

    /// The colours written as `#rrggbb` codes in a playlist's name.
    pub fn colors_for_playlist(&self, name: &String) -> (colors: Vec<Pixel>)
        ensures
            colors@ == colors_in(encode_utf8(name@)),
    {
        let text: &str = name.as_str();
        colors_in_bytes(text.as_bytes())
    }
}

impl ModeTrait for MusicMode {
    open spec fn ready(&self) -> bool {
        self@.playlists.len() > 0
    }

    fn setup(&mut self) -> (effects: Vec<Effect>)
        ensures
            final(self)@ == old(self)@,
            in_range(final(self)@),
            effects_view(effects@) == play_current_effects(old(self)@),
    {
        proof {
            use_type_invariant(&*self);
        }
        self.start_current_playlist()
    }

    fn teardown(&mut self) -> (effects: Vec<Effect>)
        ensures
            final(self)@ == old(self)@,
            in_range(final(self)@),
            effects_view(effects@) == seq![EffectView::Music(MusicCommandView::Stop)],
    {
        proof {
            use_type_invariant(&*self);
        }
        let effects = vec![Effect::Music(MusicCommand::Stop)];
        assert(effects_view(effects@) =~= seq![EffectView::Music(MusicCommandView::Stop)]);
        effects
    }

    fn right_blue_botton(&mut self) -> (effects: Vec<Effect>)
        ensures
            final(self)@ == old(self)@,
            in_range(final(self)@),
            effects_view(effects@) == seq![EffectView::Music(MusicCommandView::Next)],
    {
        proof {
            use_type_invariant(&*self);
        }
        let effects = vec![Effect::Music(MusicCommand::Next)];
        assert(effects_view(effects@) =~= seq![EffectView::Music(MusicCommandView::Next)]);
        effects
    }

    fn left_blue_button(&mut self) -> (effects: Vec<Effect>)
        ensures
            final(self)@ == old(self)@,
            in_range(final(self)@),
            effects_view(effects@) == seq![EffectView::Music(MusicCommandView::Prev)],
    {
        proof {
            use_type_invariant(&*self);
        }
        let effects = vec![Effect::Music(MusicCommand::Prev)];
        assert(effects_view(effects@) =~= seq![EffectView::Music(MusicCommandView::Prev)]);
        effects
    }

    fn red_button(&mut self) -> (effects: Vec<Effect>)
        ensures
            final(self)@ == next_playlist(old(self)@),
            in_range(final(self)@),
            effects_view(effects@) == play_current_effects(final(self)@),
    {
        proof {
            use_type_invariant(&*self);
        }
        let n = self.playlists.len();
        self.current_playlist = (self.current_playlist + 1) % n;
        self.start_current_playlist()
    }

    fn green_button(&mut self) -> (effects: Vec<Effect>)
        ensures
            final(self)@ == previous_playlist(old(self)@),
            in_range(final(self)@),
            effects_view(effects@) == play_current_effects(final(self)@),
    {
        proof {
            use_type_invariant(&*self);
        }
        self.current_playlist = self.current_playlist.checked_sub(1).unwrap_or(
            self.playlists.len() - 1,
        );
        self.start_current_playlist()
    }
}

/// The green button undoes the red button, and the red button undoes the
/// green button.
pub proof fn lemma_red_green_undo_each_other(v: MusicModeView)
    requires
        in_range(v),
        v.playlists.len() > 0,
    ensures
        previous_playlist(next_playlist(v)) == v,
        next_playlist(previous_playlist(v)) == v,
{
    let n = v.playlists.len() as int;
    let c = v.current;
    if c + 1 < n {
        vstd::arithmetic::div_mod::lemma_small_mod((c + 1) as nat, n as nat);
    } else {
        vstd::arithmetic::div_mod::lemma_mod_self_0(n);
    }
    if c >= 1 {
        vstd::arithmetic::div_mod::lemma_small_mod(c as nat, n as nat);
    } else {
        vstd::arithmetic::div_mod::lemma_mod_self_0(n);
    }
}

/// The red and green buttons keep the current playlist among the playlists.
pub proof fn lemma_buttons_stay_in_range(v: MusicModeView)
    requires
        in_range(v),
        v.playlists.len() > 0,
    ensures
        in_range(next_playlist(v)),
        in_range(previous_playlist(v)),
        next_playlist(v).current < v.playlists.len(),
        previous_playlist(v).current < v.playlists.len(),
{
    vstd::arithmetic::div_mod::lemma_mod_bound(v.current + 1, v.playlists.len() as int);
}

proof fn lemma_code_starts_bounds(s: Seq<u8>, from: int)
    requires
        0 <= from,
    ensures
        from <= s.len() ==> 7 * code_starts(s, from).len() <= s.len() - from,
        forall|k: int|
            0 <= k < code_starts(s, from).len() ==> #[trigger] code_at(s, code_starts(s, from)[k])
                && from <= code_starts(s, from)[k],
    decreases s.len() - from,
{
    if from >= s.len() {
    } else if code_at(s, from) {
        lemma_code_starts_bounds(s, from + 7);
        let rest = code_starts(s, from + 7);
        assert forall|k: int| 0 <= k < code_starts(s, from).len() implies #[trigger] code_at(
            s,
            code_starts(s, from)[k],
        ) && from <= code_starts(s, from)[k] by {
            if k > 0 {
                assert(code_starts(s, from)[k] == rest[k - 1]);
            }
        }
    } else {
        lemma_code_starts_bounds(s, from + 1);
    }
}

/// Every colour found in a text is written there as a code `#rrggbb`, at
/// the place `code_starts` names, and the codes do not overlap: a text of
/// `n` bytes holds at most `n / 7` colours.
pub proof fn lemma_colors_come_from_codes(s: Seq<u8>)
    ensures
        7 * colors_in(s).len() <= s.len(),
        colors_in(s).len() == code_starts(s, 0).len(),
        forall|k: int|
            0 <= k < colors_in(s).len() ==> code_at(s, code_starts(s, 0)[k]) && #[trigger] colors_in(
                s,
            )[k] == code_color(s, code_starts(s, 0)[k]),
{
    lemma_code_starts_bounds(s, 0);
}

proof fn lemma_code_starts_exact(s: Seq<u8>, from: int)
    requires
        0 <= from,
    ensures
        forall|i: int| (from <= i && code_at(s, i)) <==> #[trigger] code_starts(s, from).contains(i),
        forall|k: int| 0 <= k < code_starts(s, from).len() ==> from <= #[trigger] code_starts(s, from)[k],
        forall|j: int, k: int|
            0 <= j < k < code_starts(s, from).len() ==> #[trigger] code_starts(s, from)[j] + 7
                <= #[trigger] code_starts(s, from)[k],
    decreases s.len() - from,
{
    if from >= s.len() {
    } else if code_at(s, from) {
        lemma_code_starts_exact(s, from + 7);
        let rest = code_starts(s, from + 7);
        let all = code_starts(s, from);
        assert(all == seq![from] + rest);
        assert forall|i: int| (from <= i && code_at(s, i)) <==> #[trigger] all.contains(i) by {
            if from <= i && code_at(s, i) {
                if i == from {
                    assert(all[0] == from);
                } else if i < from + 7 {
                    // A code's digits are not '#', so no code starts inside one.
                    assert(is_hex_digit(s[from + (i - from)]));
                    assert(false);
                } else {
                    assert(rest.contains(i));
                    let k = choose|k: int| 0 <= k < rest.len() && rest[k] == i;
                    assert(all[k + 1] == i);
                }
            }
            if all.contains(i) {
                let k = choose|k: int| 0 <= k < all.len() && all[k] == i;
                if k > 0 {
                    assert(rest[k - 1] == i);
                    assert(rest.contains(i));
                }
            }
        }
        assert forall|k: int| 0 <= k < all.len() implies from <= #[trigger] all[k] by {
            if k > 0 {
                assert(all[k] == rest[k - 1]);
            }
        }
        assert forall|j: int, k: int| 0 <= j < k < all.len() implies #[trigger] all[j] + 7
            <= #[trigger] all[k] by {
            assert(all[k] == rest[k - 1]);
            assert(from + 7 <= rest[k - 1]);
            if j > 0 {
                assert(all[j] == rest[j - 1]);
            }
        }
    } else {
        lemma_code_starts_exact(s, from + 1);
        assert(code_starts(s, from) == code_starts(s, from + 1));
        assert forall|i: int| (from <= i && code_at(s, i)) <==> #[trigger] code_starts(
            s,
            from,
        ).contains(i) by {
            if from <= i && code_at(s, i) {
                assert(i != from);
            }
        }
    }
}

/// A byte `0-9` (48-57), `a-f` (97-102) or `A-F` (65-70).
pub open spec fn hex_char(b: u8) -> bool {
    (48 <= b <= 57) || (97 <= b <= 102) || (65 <= b <= 70)
}

/// The value of such a byte as a hexadecimal digit.
pub open spec fn hex_char_value(b: u8) -> int {
    if b <= 57 {
        b - 48
    } else if b <= 70 {
        b - 65 + 10
    } else {
        b - 97 + 10
    }
}

/// Byte `i` starts `#` (35) followed by six hexadecimal digits.
pub open spec fn written_code_at(s: Seq<u8>, i: int) -> bool {
    0 <= i && i + 7 <= s.len() && s[i] == 35 && hex_char(s[i + 1]) && hex_char(s[i + 2])
        && hex_char(s[i + 3]) && hex_char(s[i + 4]) && hex_char(s[i + 5]) && hex_char(s[i + 6])
}

/// The colours found in a text are exactly the colours written in it as
/// `#` and six hexadecimal digits, each code once, in the order they are
/// written: a code is found at every place where one is written and nowhere
/// else (two codes never overlap, as a digit is not `#`), and each colour's
/// components are the code's digit pairs read as hexadecimal numbers. In
/// particular a text without a `#` byte has no colour.
pub proof fn lemma_colors_are_the_written_codes(s: Seq<u8>)
    ensures
        colors_in(s).len() == code_starts(s, 0).len(),
        forall|i: int| written_code_at(s, i) <==> #[trigger] code_starts(s, 0).contains(i),
        forall|j: int, k: int|
            0 <= j < k < code_starts(s, 0).len() ==> #[trigger] code_starts(s, 0)[j] + 7
                <= #[trigger] code_starts(s, 0)[k],
        forall|k: int|
            0 <= k < colors_in(s).len() ==> written_code_at(s, #[trigger] code_starts(s, 0)[k])
                && colors_in(s)[k] == (Pixel {
                r: (16 * hex_char_value(s[code_starts(s, 0)[k] + 1]) + hex_char_value(
                    s[code_starts(s, 0)[k] + 2],
                )) as u8,
                g: (16 * hex_char_value(s[code_starts(s, 0)[k] + 3]) + hex_char_value(
                    s[code_starts(s, 0)[k] + 4],
                )) as u8,
                b: (16 * hex_char_value(s[code_starts(s, 0)[k] + 5]) + hex_char_value(
                    s[code_starts(s, 0)[k] + 6],
                )) as u8,
            }),
        (forall|i: int| 0 <= i < s.len() ==> s[i] != 35) ==> colors_in(s).len() == 0,
{
    lemma_code_starts_exact(s, 0);
    assert forall|i: int| written_code_at(s, i) <==> code_at(s, i) by {
        if written_code_at(s, i) {
            assert forall|k: int| 1 <= k < 7 implies #[trigger] is_hex_digit(s[i + k]) by {
                if k == 1 {
                } else if k == 2 {
                } else if k == 3 {
                } else if k == 4 {
                } else if k == 5 {
                } else {
                }
            }
        }
        if code_at(s, i) {
            assert(is_hex_digit(s[i + 1]));
            assert(is_hex_digit(s[i + 2]));
            assert(is_hex_digit(s[i + 3]));
            assert(is_hex_digit(s[i + 4]));
            assert(is_hex_digit(s[i + 5]));
            assert(is_hex_digit(s[i + 6]));
        }
    }
    assert forall|k: int| 0 <= k < colors_in(s).len() implies written_code_at(
        s,
        #[trigger] code_starts(s, 0)[k],
    ) && colors_in(s)[k] == (Pixel {
        r: (16 * hex_char_value(s[code_starts(s, 0)[k] + 1]) + hex_char_value(
            s[code_starts(s, 0)[k] + 2],
        )) as u8,
        g: (16 * hex_char_value(s[code_starts(s, 0)[k] + 3]) + hex_char_value(
            s[code_starts(s, 0)[k] + 4],
        )) as u8,
        b: (16 * hex_char_value(s[code_starts(s, 0)[k] + 5]) + hex_char_value(
            s[code_starts(s, 0)[k] + 6],
        )) as u8,
    }) by {
        let p = code_starts(s, 0)[k];
        assert(code_starts(s, 0).contains(p));
        assert(code_at(s, p));
        assert(colors_in(s)[k] == code_color(s, p));
        assert forall|d: int| 1 <= d < 7 implies hex_char_value(#[trigger] s[p + d]) == hex_digit_value(
            s[p + d],
        ) && 0 <= hex_digit_value(s[p + d]) < 16 by {
            assert(is_hex_digit(s[p + d]));
        }
        assert(hex_char_value(s[p + 1]) == hex_digit_value(s[p + 1]));
        assert(hex_char_value(s[p + 2]) == hex_digit_value(s[p + 2]));
        assert(hex_char_value(s[p + 3]) == hex_digit_value(s[p + 3]));
        assert(hex_char_value(s[p + 4]) == hex_digit_value(s[p + 4]));
        assert(hex_char_value(s[p + 5]) == hex_digit_value(s[p + 5]));
        assert(hex_char_value(s[p + 6]) == hex_digit_value(s[p + 6]));
        assert(is_hex_digit(s[p + 1]));
        assert(is_hex_digit(s[p + 2]));
        assert(is_hex_digit(s[p + 3]));
        assert(is_hex_digit(s[p + 4]));
        assert(is_hex_digit(s[p + 5]));
        assert(is_hex_digit(s[p + 6]));
    }
    if forall|i: int| 0 <= i < s.len() ==> s[i] != 35 {
        if code_starts(s, 0).len() > 0 {
            let p = code_starts(s, 0)[0];
            assert(code_starts(s, 0).contains(p));
            assert(code_at(s, p));
            assert(0 <= p < s.len());
            assert(s[p] == 35);
            assert(false);
        }
    }
}

/// Playing a playlist sends the play command, then flashes every colour
/// written in its name, one chase per colour, in the order they are
/// written, and nothing else.
pub proof fn lemma_playing_flashes_every_colour(name: Seq<char>)
    ensures
        play_effects(name).len() == 1 + colors_in(encode_utf8(name)).len(),
        play_effects(name)[0] == EffectView::Music(MusicCommandView::PlayPlaylist(name)),
        forall|k: int|
            0 <= k < colors_in(encode_utf8(name)).len() ==> #[trigger] play_effects(name)[k + 1]
                == EffectView::Show(MessageView::Chase(colors_in(encode_utf8(name))[k])),
{
}

} // verus!
