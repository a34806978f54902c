//! Which colour theme and which animated background are in use. The
//! drawing code of each theme and background belongs to the front end; here
//! they are known by their position in a fixed list and by their name.

use vstd::prelude::*;
use crate::text::chars_of;

verus! {

/// `c` with an ASCII upper-case letter turned to lower case.
pub open spec fn ascii_lower(c: char) -> char {
    if 'A' <= c && c <= 'Z' { ((c as u32) + 32) as char } else { c }
}

/// What `str::eq_ignore_ascii_case` answers: the same length and the same
/// characters once ASCII letters are lower-cased.
pub open spec fn eq_ignore_ascii_case_spec(a: Seq<char>, b: Seq<char>) -> bool {
    a.len() == b.len() && forall|i: int| 0 <= i < a.len() ==> #[trigger] ascii_lower(a[i]) == ascii_lower(b[i])
}

fn lower_char(c: char) -> (r: char)
    ensures
        r == ascii_lower(c),
{
    if 'A' <= c && c <= 'Z' {
        let u = (c as u32) + 32;
        let b = u as u8;
        b as char
    } else {
        c
    }
}

/// Whether two strings are equal ignoring ASCII case.
pub fn eq_ignore_ascii_case(a: &str, b: &str) -> (r: bool)
    ensures
        r == eq_ignore_ascii_case_spec(a@, b@),
{
    let x = chars_of(a);
    let y = chars_of(b);
    if x.len() != y.len() {
        return false;
    }
    let mut i: usize = 0;
    while i < x.len()
        invariant
            i <= x@.len(),
            x@.len() == y@.len(),
            x@ == a@,
            y@ == b@,
            forall|j: int| 0 <= j < i ==> #[trigger] ascii_lower(x@[j]) == ascii_lower(y@[j]),
        decreases x.len() - i,
    {
        if lower_char(x[i]) != lower_char(y[i]) {
            assert(ascii_lower(a@[i as int]) != ascii_lower(b@[i as int]));
            return false;
        }
        i = i + 1;
    }
    true
}

/// The names of the colour themes, in order.
pub open spec fn theme_names() -> Seq<Seq<char>> {
    seq!["Cyberpunk"@, "Minimal"@]
}

/// The names of the backgrounds, in order.
pub open spec fn background_names() -> Seq<Seq<char>> {
    seq![
        "Minimal"@, "Cyberpunk"@, "CyberGrid"@, "FractalGrid"@, "Geometry"@, "Geometry2"@,
        "HackerGlyphs"@, "MatrixRain"@, "NeonTunnel"@, "PlasmaWave"@, "PulseCircuit"@,
        "WireframeEarth"@, "None"@,
    ]
}

/// The first position of a name equal to `name` ignoring ASCII case.
pub open spec fn position_ignoring_case(names: Seq<Seq<char>>, name: Seq<char>) -> Option<int>
    decreases names.len(),
{
    if names.len() == 0 {
        None
    } else if eq_ignore_ascii_case_spec(names[0], name) {
        Some(0)
    } else {
        match position_ignoring_case(names.drop_first(), name) {
            Some(i) => Some(i + 1),
            None => None,
        }
    }
}

fn theme_name_at(i: usize) -> (r: &'static str)
    requires
        i < 2,
    ensures
        r@ == theme_names()[i as int],
{
    if i == 0 { "Cyberpunk" } else { "Minimal" }
}

fn background_name_at(i: usize) -> (r: &'static str)
    requires
        i < 13,
    ensures
        r@ == background_names()[i as int],
{
    match i {
        0 => "Minimal",
        1 => "Cyberpunk",
        2 => "CyberGrid",
        3 => "FractalGrid",
        4 => "Geometry",
        5 => "Geometry2",
        6 => "HackerGlyphs",
        7 => "MatrixRain",
        8 => "NeonTunnel",
        9 => "PlasmaWave",
        10 => "PulseCircuit",
        11 => "WireframeEarth",
        _ => "None",
    }
}

/// The first position in the list of `count` names whose name equals
/// `name` ignoring ASCII case.
fn find_name(count: usize, themes: bool, name: &str) -> (r: Option<usize>)
    requires
        themes ==> count == 2,
        !themes ==> count == 13,
    ensures
        r == match position_ignoring_case(if themes { theme_names() } else { background_names() }, name@) {
            Some(i) => Some(i as usize),
            None => None::<usize>,
        },
{
    let ghost names = if themes { theme_names() } else { background_names() };
    let mut i: usize = 0;
    assert(names.skip(0) =~= names);
    while i < count
        invariant
            i <= count,
            names.len() == count,
            names == if themes { theme_names() } else { background_names() },
            themes ==> count == 2,
            !themes ==> count == 13,
            position_ignoring_case(names, name@) == match position_ignoring_case(names.skip(i as int), name@) {
                Some(k) => Some(k + i),
                None => None::<int>,
            },
        decreases count - i,
    {
        let n = if themes { theme_name_at(i) } else { background_name_at(i) };
        if eq_ignore_ascii_case(n, name) {
            assert(names.skip(i as int)[0] == names[i as int]);
            return Some(i);
        }
        assert(names.skip(i as int).drop_first() =~= names.skip(i + 1));
        i = i + 1;
    }
    assert(names.skip(i as int) =~= Seq::<Seq<char>>::empty());
    None
}

/// The colour theme in use.
#[derive(Debug)]
pub struct ThemeManager {
    pub current_index: usize,
}

impl ThemeManager {
    /// The first theme.
    pub fn new() -> (r: ThemeManager)
        ensures
            r.current_index == 0,
    {
        ThemeManager { current_index: 0 }
    }

    /// The next theme, after the last the first.
    pub fn cycle_theme(&mut self)
        ensures
            final(self).current_index == (old(self).current_index + 1) % 2,
    {
        self.current_index = (self.current_index % 2 + 1) % 2;
    }

    /// The name of the theme in use.
    pub fn get_theme_name(&self) -> (r: &str)
        requires
            self.current_index < 2,
        ensures
            r@ == theme_names()[self.current_index as int],
    {
        theme_name_at(self.current_index)
    }

    /// Uses the first theme whose name equals `name` ignoring ASCII case;
    /// nothing changes when there is none.
    pub fn set_theme_by_name(&mut self, name: &str)
        ensures
            final(self).current_index == match position_ignoring_case(theme_names(), name@) {
                Some(i) => i as usize,
                None => old(self).current_index,
            },
    {
        match find_name(2, true, name) {
            Some(i) => self.current_index = i,
            None => {},
        }
    }
}

/// The animated background in use.
#[derive(Debug)]
pub struct BackgroundManager {
    pub current_index: usize,
}

impl BackgroundManager {
    /// The first background.
    pub fn new() -> (r: BackgroundManager)
        ensures
            r.current_index == 0,
    {
        BackgroundManager { current_index: 0 }
    }

    /// The next background, after the last the first.
    pub fn cycle_background(&mut self)
        ensures
            final(self).current_index == (old(self).current_index + 1) % 13,
    {
        self.current_index = (self.current_index % 13 + 1) % 13;
    }

    /// The name of the background in use, `None` past the end of the list.
    pub fn get_background_name(&self) -> (r: &str)
        ensures
            self.current_index < 13 ==> r@ == background_names()[self.current_index as int],
            self.current_index >= 13 ==> r@ == "None"@,
    {
        if self.current_index < 13 {
            background_name_at(self.current_index)
        } else {
            "None"
        }
    }

    /// Uses the first background whose name equals `name` ignoring ASCII
    /// case; nothing changes when there is none.
    pub fn set_background_by_name(&mut self, name: &str)
        ensures
            final(self).current_index == match position_ignoring_case(background_names(), name@) {
                Some(i) => i as usize,
                None => old(self).current_index,
            },
    {
        match find_name(13, false, name) {
            Some(i) => self.current_index = i,
            None => {},
        }
    }
}

} // verus!
