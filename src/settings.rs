use rgb::RGB8;
use vstd::prelude::*;

verus! {

#[verifier::external_type_specification]
#[verifier::reject_recursive_types(T)]
pub struct ExRgb<T>(rgb::Rgb<T>);

/// Relies on rgb's `Rgb::new`, a struct literal that puts its three arguments in the
/// fields `r`, `g` and `b` and cannot fail.
pub assume_specification<T: Copy>[ rgb::Rgb::<T>::new ](red: T, green: T, blue: T) -> (r:
    rgb::Rgb<T>)
    ensures
        r.r == red,
        r.g == green,
        r.b == blue,
;

/// Number of colors in the built-in palette.
pub const BUILTIN_COLORS: usize = 9;

/// Red, green and blue components of color `i` of the built-in palette.
pub open spec fn builtin_rgb(i: int) -> (u8, u8, u8) {
    if i == 0 {
        (241, 196, 15)
    } else if i == 1 {
        (26, 188, 156)
    } else if i == 2 {
        (52, 152, 219)
    } else if i == 3 {
        (155, 89, 182)
    } else if i == 4 {
        (192, 57, 43)
    } else if i == 5 {
        (243, 156, 18)
    } else if i == 6 {
        (22, 160, 133)
    } else if i == 7 {
        (41, 128, 185)
    } else {
        (142, 68, 173)
    }
}

/// `c` has the components of color `i` of the built-in palette.
pub open spec fn is_builtin_color(c: RGB8, i: int) -> bool {
    &&& c.r == builtin_rgb(i).0
    &&& c.g == builtin_rgb(i).1
    &&& c.b == builtin_rgb(i).2
}

/// `colors` is the first `n` colors of the built-in palette.
pub open spec fn is_builtin_prefix(colors: Seq<RGB8>, n: int) -> bool {
    &&& colors.len() == n
    &&& forall|i: int| 0 <= i < n ==> is_builtin_color(#[trigger] colors[i], i)
}

fn builtin_components(i: usize) -> (r: (u8, u8, u8))
    requires
        i < BUILTIN_COLORS,
    ensures
        r == builtin_rgb(i as int),
{
    match i {
        0 => (241, 196, 15),
        1 => (26, 188, 156),
        2 => (52, 152, 219),
        3 => (155, 89, 182),
        4 => (192, 57, 43),
        5 => (243, 156, 18),
        6 => (22, 160, 133),
        7 => (41, 128, 185),
        _ => (142, 68, 173),
    }
}

/// Why a configuration was rejected.
#[derive(Clone, Copy, Debug, PartialEq, Eq, Structural)]
pub enum ConfigError {
    /// Fewer than two colors.
    InvalidPaletteSize,
    /// A code of length zero.
    InvalidCodeLength,
    /// No try allowed.
    InvalidMaxTries,
}

/// Parameters of a game: the palette (its length is the number of colors), the number
/// of pegs in a code, and the number of guesses allowed.
#[derive(Clone, Debug, PartialEq)]
pub struct BoardSettings {
    pub colors: Vec<RGB8>,
    pub code_length: u8,
    pub max_tries: u8,
}

impl BoardSettings {
    /// Number of distinct color identifiers.
    pub open spec fn palette_size(&self) -> nat {
        self.colors@.len()
    }

    /// All three parameters are in range.
    pub open spec fn is_valid(&self) -> bool {
        &&& self.palette_size() >= 2
        &&& self.code_length >= 1
        &&& self.max_tries >= 1
    }

    /// The first parameter out of range, checked in the order palette, code length, tries.
    pub open spec fn config_error(&self) -> Option<ConfigError> {
        if self.palette_size() < 2 {
            Some(ConfigError::InvalidPaletteSize)
        } else if self.code_length < 1 {
            Some(ConfigError::InvalidCodeLength)
        } else if self.max_tries < 1 {
            Some(ConfigError::InvalidMaxTries)
        } else {
            None
        }
    }

    /// `g` has the code length and only colors of the palette.
    pub open spec fn admits(&self, g: Seq<u8>) -> bool {
        &&& g.len() == self.code_length
        &&& forall|i: int| 0 <= i < g.len() ==> (#[trigger] g[i] as nat) < self.palette_size()
    }

    pub fn new(colors: Vec<RGB8>, code_length: u8, max_tries: u8) -> (r: BoardSettings)
        ensures
            r.colors@ == colors@,
            r.code_length == code_length,
            r.max_tries == max_tries,
    {
        BoardSettings { colors, code_length, max_tries }
    }

    /// Checks the palette size, then the code length, then the number of tries.
    pub fn validate(&self) -> (r: Result<(), ConfigError>)
        ensures
            r is Ok <==> self.is_valid(),
            r == match self.config_error() {
                Some(e) => Err(e),
                None => Ok(()),
            },
    {
        if self.colors.len() < 2 {
            Err(ConfigError::InvalidPaletteSize)
        } else if self.code_length < 1 {
            Err(ConfigError::InvalidCodeLength)
        } else if self.max_tries < 1 {
            Err(ConfigError::InvalidMaxTries)
        } else {
            Ok(())
        }
    }

    /// Whether `guess` has the code length and only colors of the palette.
    pub fn is_valid_guess(&self, guess: &Vec<u8>) -> (r: bool)
        ensures
            r == self.admits(guess@),
    {
        if guess.len() != self.code_length as usize {
            return false;
        }
        let mut i: usize = 0;
        while i < guess.len()
            invariant
                i <= guess@.len(),
                forall|j: int| 0 <= j < i ==> (#[trigger] guess@[j] as nat) < self.palette_size(),
            decreases guess@.len() - i,
        {
            if guess[i] as usize >= self.colors.len() {
                return false;
            }
            i = i + 1;
        }
        true
    }

    /// Number of distinct color identifiers.
    pub fn color_count(&self) -> (r: usize)
        ensures
            r == self.palette_size(),
    {
        self.colors.len()
    }

    pub fn colors(self, colors: Vec<RGB8>) -> (r: BoardSettings)
        ensures
            r.colors@ == colors@,
            r.code_length == self.code_length,
            r.max_tries == self.max_tries,
    {
        BoardSettings { colors, ..self }
    }

    pub fn code_length(self, code_length: u8) -> (r: BoardSettings)
        ensures
            r.colors@ == self.colors@,
            r.code_length == code_length,
            r.max_tries == self.max_tries,
    {
        BoardSettings { code_length, ..self }
    }

    pub fn max_tries(self, tries: u8) -> (r: BoardSettings)
        ensures
            r.colors@ == self.colors@,
            r.code_length == self.code_length,
            r.max_tries == tries,
    {
        BoardSettings { max_tries: tries, ..self }
    }

    /// Replaces the palette with the first `number` colors of the built-in palette.
    pub fn generate_colors(&mut self, number: i16)
        requires
            0 <= number <= BUILTIN_COLORS,
        ensures
            is_builtin_prefix(final(self).colors@, number as int),
            final(self).code_length == old(self).code_length,
            final(self).max_tries == old(self).max_tries,
    {
        self.colors = builtin_palette(number as usize);
    }

    /// These settings with the first `number` colors of the built-in palette.
    pub fn with_n_colors(self, number: i16) -> (r: BoardSettings)
        requires
            0 <= number <= BUILTIN_COLORS,
        ensures
            is_builtin_prefix(r.colors@, number as int),
            r.code_length == self.code_length,
            r.max_tries == self.max_tries,
    {
        BoardSettings { colors: builtin_palette(number as usize), ..self }
    }
}

impl Default for BoardSettings {
    /// An empty palette, code length zero and no tries: to be filled in before use.
    fn default() -> (r: BoardSettings)
        ensures
            r.palette_size() == 0,
            r.code_length == 0,
            r.max_tries == 0,
    {
        BoardSettings { colors: Vec::new(), code_length: 0, max_tries: 0 }
    }
}

/// The first `n` colors of the built-in palette.
fn builtin_palette(n: usize) -> (r: Vec<RGB8>)
    requires
        n <= BUILTIN_COLORS,
    ensures
        is_builtin_prefix(r@, n as int),
{
    let mut colors: Vec<RGB8> = Vec::new();
    let mut i: usize = 0;
    while i < n
        invariant
            i <= n <= BUILTIN_COLORS,
            is_builtin_prefix(colors@, i as int),
        decreases n - i,
    {
        let (r, g, b) = builtin_components(i);
        colors.push(RGB8::new(r, g, b));
        i = i + 1;
    }
    colors
}

} // verus!
