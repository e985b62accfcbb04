use vstd::prelude::*;

use crate::text::{lines, lines_of, same_text, split_once, split_once_str, text_of};

verus! {

/// A terminal color that a group of tasks is shown in.
#[derive(Clone, Copy, Debug, PartialEq, Eq, Structural)]
pub enum Color {
    Black,
    Blue,
    BrightBlack,
    BrightBlue,
    BrightCyan,
    BrightGreen,
    BrightMagenta,
    BrightRed,
    BrightWhite,
    BrightYellow,
    Cyan,
    Green,
    Magenta,
    Red,
    White,
    Yellow,
}

/// Why the configuration text could not be read.
#[derive(Clone, Copy, Debug, PartialEq, Eq, Structural)]
pub enum ConfigError {
    /// A line is not `key=value` with a known key.
    Syntax,
    /// A color setting names no known color.
    InvalidColor,
}

/// The lower-case form of a text, as std's `str::to_lowercase` gives it.
pub uninterp spec fn lower_of(s: Seq<char>) -> Seq<char>;

/// Relies on std's `str::to_lowercase`: the result depends on the characters alone.
#[verifier::external_body]
fn lowercase(s: &str) -> (r: String)
    ensures
        r@ == lower_of(s@),
{
    s.to_lowercase()
}

/// The color that a lower-case name denotes.
pub open spec fn color_of_name(n: Seq<char>) -> Option<Color> {
    if n == "black"@ {
        Some(Color::Black)
    } else if n == "blue"@ {
        Some(Color::Blue)
    } else if n == "bright_black"@ {
        Some(Color::BrightBlack)
    } else if n == "bright_blue"@ {
        Some(Color::BrightBlue)
    } else if n == "bright_cyan"@ {
        Some(Color::BrightCyan)
    } else if n == "bright_green"@ {
        Some(Color::BrightGreen)
    } else if n == "bright_magenta"@ {
        Some(Color::BrightMagenta)
    } else if n == "bright_red"@ {
        Some(Color::BrightRed)
    } else if n == "bright_white"@ {
        Some(Color::BrightWhite)
    } else if n == "bright_yellow"@ {
        Some(Color::BrightYellow)
    } else if n == "cyan"@ {
        Some(Color::Cyan)
    } else if n == "green"@ {
        Some(Color::Green)
    } else if n == "magenta"@ {
        Some(Color::Magenta)
    } else if n == "red"@ {
        Some(Color::Red)
    } else if n == "white"@ {
        Some(Color::White)
    } else if n == "yellow"@ {
        Some(Color::Yellow)
    } else {
        None
    }
}

/// The color that a name denotes, in any case.
pub fn match_color(s: &str) -> (r: Result<Color, ConfigError>)
    ensures
        r matches Ok(c) ==> color_of_name(lower_of(s@)) == Some(c),
        r is Err ==> color_of_name(lower_of(s@)) is None && r == Err::<Color, ConfigError>(
            ConfigError::InvalidColor,
        ),
{
    let l = lowercase(s);
    let n = l.as_str();
    if same_text(n, "black") {
        Ok(Color::Black)
    } else if same_text(n, "blue") {
        Ok(Color::Blue)
    } else if same_text(n, "bright_black") {
        Ok(Color::BrightBlack)
    } else if same_text(n, "bright_blue") {
        Ok(Color::BrightBlue)
    } else if same_text(n, "bright_cyan") {
        Ok(Color::BrightCyan)
    } else if same_text(n, "bright_green") {
        Ok(Color::BrightGreen)
    } else if same_text(n, "bright_magenta") {
        Ok(Color::BrightMagenta)
    } else if same_text(n, "bright_red") {
        Ok(Color::BrightRed)
    } else if same_text(n, "bright_white") {
        Ok(Color::BrightWhite)
    } else if same_text(n, "bright_yellow") {
        Ok(Color::BrightYellow)
    } else if same_text(n, "cyan") {
        Ok(Color::Cyan)
    } else if same_text(n, "green") {
        Ok(Color::Green)
    } else if same_text(n, "magenta") {
        Ok(Color::Magenta)
    } else if same_text(n, "red") {
        Ok(Color::Red)
    } else if same_text(n, "white") {
        Ok(Color::White)
    } else if same_text(n, "yellow") {
        Ok(Color::Yellow)
    } else {
        Err(ConfigError::InvalidColor)
    }
}

/// What a configuration holds.
pub struct ConfigModel {
    pub datadir: Seq<char>,
    pub editor: Seq<char>,
    pub date_format: Seq<char>,
    pub overdue_color: Color,
    pub today_color: Color,
    pub scheduled_color: Color,
    pub completed_color: Color,
    pub notasks_color: Color,
}

/// Where the task file lies, which editor opens it, how dates are shown, and the color of
/// each group.
pub struct Config {
    pub datadir: String,
    pub editor: String,
    pub date_format: String,
    pub overdue_color: Color,
    pub today_color: Color,
    pub scheduled_color: Color,
    pub completed_color: Color,
    pub notasks_color: Color,
}

impl View for Config {
    type V = ConfigModel;

    open spec fn view(&self) -> ConfigModel {
        ConfigModel {
            datadir: self.datadir@,
            editor: self.editor@,
            date_format: self.date_format@,
            overdue_color: self.overdue_color,
            today_color: self.today_color,
            scheduled_color: self.scheduled_color,
            completed_color: self.completed_color,
            notasks_color: self.notasks_color,
        }
    }
}

/// The configuration before any setting: the given data directory, no editor, dates as
/// `%Y-%m-%d`, and the standard colors.
pub open spec fn default_config(datadir: Seq<char>) -> ConfigModel {
    ConfigModel {
        datadir,
        editor: seq![],
        date_format: "%Y-%m-%d"@,
        overdue_color: Color::Red,
        today_color: Color::Yellow,
        scheduled_color: Color::Cyan,
        completed_color: Color::Green,
        notasks_color: Color::White,
    }
}

pub open spec fn color_setting(value: Seq<char>) -> Result<Color, ConfigError> {
    match color_of_name(lower_of(value)) {
        Some(c) => Ok(c),
        None => Err(ConfigError::InvalidColor),
    }
}

/// The configuration after one `key=value` line.
pub open spec fn apply_setting(c: ConfigModel, line: Seq<char>) -> Result<ConfigModel, ConfigError> {
    match split_once(line, "="@) {
        None => Err(ConfigError::Syntax),
        Some((key, value)) => if key == "datadir"@ {
            Ok(ConfigModel { datadir: value, ..c })
        } else if key == "editor"@ {
            Ok(ConfigModel { editor: value, ..c })
        } else if key == "date_format"@ {
            Ok(ConfigModel { date_format: value, ..c })
        } else if key == "overdue_color"@ {
            match color_setting(value) {
                Ok(k) => Ok(ConfigModel { overdue_color: k, ..c }),
                Err(e) => Err(e),
            }
        } else if key == "today_color"@ {
            match color_setting(value) {
                Ok(k) => Ok(ConfigModel { today_color: k, ..c }),
                Err(e) => Err(e),
            }
        } else if key == "scheduled_color"@ {
            match color_setting(value) {
                Ok(k) => Ok(ConfigModel { scheduled_color: k, ..c }),
                Err(e) => Err(e),
            }
        } else if key == "completed_color"@ {
            match color_setting(value) {
                Ok(k) => Ok(ConfigModel { completed_color: k, ..c }),
                Err(e) => Err(e),
            }
        } else if key == "notasks_color"@ {
            match color_setting(value) {
                Ok(k) => Ok(ConfigModel { notasks_color: k, ..c }),
                Err(e) => Err(e),
            }
        } else {
            Err(ConfigError::Syntax)
        },
    }
}

/// The configuration after the lines in turn, or the error of the first bad line.
pub open spec fn apply_settings(c: ConfigModel, ls: Seq<Seq<char>>) -> Result<
    ConfigModel,
    ConfigError,
>
    decreases ls.len(),
{
    if ls.len() == 0 {
        Ok(c)
    } else {
        match apply_settings(c, ls.drop_last()) {
            Ok(p) => apply_setting(p, ls.last()),
            Err(e) => Err(e),
        }
    }
}

impl Config {
    /// The configuration before any setting.
    pub fn defaults(datadir: String) -> (r: Config)
        ensures
            r@ == default_config(datadir@),
    {
        Config {
            datadir,
            editor: String::new(),
            date_format: text_of("%Y-%m-%d"),
            overdue_color: Color::Red,
            today_color: Color::Yellow,
            scheduled_color: Color::Cyan,
            completed_color: Color::Green,
            notasks_color: Color::White,
        }
    }

    /// Applies one `key=value` line.
    pub fn apply(&mut self, line: &str) -> (r: Result<(), ConfigError>)
        ensures
            apply_setting(old(self)@, line@) matches Ok(c) ==> r is Ok && final(self)@ == c,
            apply_setting(old(self)@, line@) matches Err(e) ==> r == Err::<(), ConfigError>(e),
    {
        let (key, value) = match split_once_str(line, "=") {
            Some(parts) => parts,
            None => return Err(ConfigError::Syntax),
        };
        let k = key.as_str();
        if same_text(k, "datadir") {
            self.datadir = value;
        } else if same_text(k, "editor") {
            self.editor = value;
        } else if same_text(k, "date_format") {
            self.date_format = value;
        } else if same_text(k, "overdue_color") {
            self.overdue_color = match_color(value.as_str())?;
        } else if same_text(k, "today_color") {
            self.today_color = match_color(value.as_str())?;
        } else if same_text(k, "scheduled_color") {
            self.scheduled_color = match_color(value.as_str())?;
        } else if same_text(k, "completed_color") {
            self.completed_color = match_color(value.as_str())?;
        } else if same_text(k, "notasks_color") {
            self.notasks_color = match_color(value.as_str())?;
        } else {
            return Err(ConfigError::Syntax);
        }
        Ok(())
    }

    /// The configuration that a text of `key=value` lines gives, starting from the defaults
    /// with the given data directory.
    pub fn from_text(text: &str, datadir: String) -> (r: Result<Config, ConfigError>)
        ensures
            apply_settings(default_config(datadir@), lines_of(text@)) matches Ok(c) ==> r matches Ok(
                k,
            ) && k@ == c,
            apply_settings(default_config(datadir@), lines_of(text@)) matches Err(e) ==> r
                == Err::<Config, ConfigError>(e),
    {
        let ls = lines(text);
        let ghost gl = lines_of(text@);
        let ghost start = default_config(datadir@);
        let mut c = Config::defaults(datadir);
        let mut i: usize = 0;
        assert(gl.take(0) =~= Seq::<Seq<char>>::empty());
        while i < ls.len()
            invariant
                gl == lines_of(text@),
                start == default_config(datadir@),
                ls@.len() == gl.len(),
                forall|k: int| 0 <= k < ls@.len() ==> #[trigger] ls@[k]@ == gl[k],
                i <= ls@.len(),
                apply_settings(start, gl.take(i as int)) == Ok::<ConfigModel, ConfigError>(c@),
            decreases ls@.len() - i,
        {
            assert(gl.take(i + 1).drop_last() =~= gl.take(i as int));
            match c.apply(ls[i].as_str()) {
                Ok(()) => {},
                Err(e) => {
                    proof {
                        lemma_settings_error(start, gl, i + 1, gl.len() as int, e);
                        assert(gl.take(gl.len() as int) =~= gl);
                    }
                    return Err(e);
                },
            }
            i = i + 1;
        }
        assert(gl.take(gl.len() as int) =~= gl);
        Ok(c)
    }
}

proof fn lemma_settings_error(c: ConfigModel, ls: Seq<Seq<char>>, i: int, j: int, e: ConfigError)
    requires
        0 <= i <= j <= ls.len(),
        apply_settings(c, ls.take(i)) == Err::<ConfigModel, ConfigError>(e),
    ensures
        apply_settings(c, ls.take(j)) == Err::<ConfigModel, ConfigError>(e),
    decreases j - i,
{
    if i < j {
        lemma_settings_error(c, ls, i, j - 1, e);
        assert(ls.take(j).drop_last() =~= ls.take(j - 1));
    }
}

} // verus!
