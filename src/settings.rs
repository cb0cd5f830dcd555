//! Settings of the application, with the home marker of their paths
//! expanded.

use vstd::prelude::*;
use crate::paths::{expand_tilde_spec, expand_tilde_with, home_dir, starts_with_home};

verus! {

/// How an image is fitted when the image changes.
/// - `FitWidth` fits the image to the width of the window or split.
/// - `FitHeight` fits the image to the height of the window or split.
/// - `FitBest` picks `FitWidth` or `FitHeight` so that the whole image shows.
/// - `Fill` picks `FitWidth` or `FitHeight` so that the image fills the view.
/// - `KeepZoom` keeps the zoom level.
/// - `ClearZoom` resets the zoom to 1.
/// - `NoFit` does nothing.
#[derive(Clone, Copy, Debug, PartialEq, Eq, Structural)]
pub enum FitMode {
    FitWidth,
    FitHeight,
    FitBest,
    Fill,
    KeepZoom,
    ClearZoom,
    NoFit,
}

impl Default for FitMode {
    fn default() -> (r: FitMode)
        ensures
            r == FitMode::FitBest,
    {
        FitMode::FitBest
    }
}

/// Whether the image is shown whole on both sides, or continues from one
/// side to the other.
#[derive(Clone, Copy, Debug, PartialEq, Eq, Structural)]
pub enum DisplayMode {
    Duplicate,
    Continuous,
}

impl Default for DisplayMode {
    fn default() -> (r: DisplayMode)
        ensures
            r == DisplayMode::Continuous,
    {
        DisplayMode::Continuous
    }
}

/// Where the source image stands on the screen, which also decides whether
/// the screen is split vertically or horizontally.
#[derive(Clone, Copy, Debug, PartialEq, Eq, Structural)]
pub enum SourcePosition {
    Top,
    Bottom,
    Left,
    Right,
}

impl Default for SourcePosition {
    fn default() -> (r: SourcePosition)
        ensures
            r == SourcePosition::Left,
    {
        SourcePosition::Left
    }
}

/// Whether the movement keys move the image or the view.
#[derive(Clone, Copy, Debug, PartialEq, Eq, Structural)]
pub enum MoveMode {
    Image,
    View,
}

impl Default for MoveMode {
    fn default() -> (r: MoveMode)
        ensures
            r == MoveMode::Image,
    {
        MoveMode::Image
    }
}

/// The command line: where the configuration file is.
#[derive(Debug)]
pub struct Cli {
    pub config: String,
}

/// The command templates, one per variant to compare.
#[derive(Debug)]
pub struct Commands {
    pub cmds: Vec<String>,
}

/// Settings of the application, loaded from the configuration file.
#[derive(Debug)]
pub struct AppSettings {
    pub processing_directory: String,
    pub trash_directory: String,
    pub cmds_file: String,
    pub display_mode: DisplayMode,
    pub source_position: SourcePosition,
    pub fit_mode: FitMode,
    pub padding: u32,
    pub move_mode: MoveMode,
}

/// Where processed variants are written unless the configuration says
/// otherwise.
pub fn default_processing_directory() -> (r: String)
    ensures
        r@ == "/tmp/"@,
{
    "/tmp/".to_owned()
}

/// Where originals are moved unless the configuration says otherwise.
pub fn default_trash_directory() -> (r: String)
    ensures
        r@ == "~/.local/share/bimgo/trash"@,
{
    "~/.local/share/bimgo/trash".to_owned()
}

/// Where the command templates are read from unless the configuration says
/// otherwise.
pub fn default_cmd_file() -> (r: String)
    ensures
        r@ == "~/.config/bimgo/cmds"@,
{
    "~/.config/bimgo/cmds".to_owned()
}

impl AppSettings {
    /// Expands the home marker of the three paths into `home`, the user's
    /// home directory if it is known. Either all three are expanded, or
    /// none is changed and an error is returned: when a path needs the home
    /// directory and it is not known.
    pub fn expand_home_with(&mut self, home: Option<String>) -> (r: Result<(), String>)
        ensures
            r is Err <==> home is None && (starts_with_home(old(self).processing_directory@)
                || starts_with_home(old(self).trash_directory@) || starts_with_home(
                old(self).cmds_file@,
            )),
            r is Err ==> *final(self) == *old(self),
            r is Ok ==> final(self).display_mode == old(self).display_mode
                && final(self).source_position == old(self).source_position
                && final(self).fit_mode == old(self).fit_mode && final(self).padding
                == old(self).padding && final(self).move_mode == old(self).move_mode,
            r is Ok && home is Some ==> {
                let h = home->Some_0@;
                &&& final(self).processing_directory@ == expand_tilde_spec(
                    old(self).processing_directory@,
                    h,
                )
                &&& final(self).trash_directory@ == expand_tilde_spec(old(self).trash_directory@, h)
                &&& final(self).cmds_file@ == expand_tilde_spec(old(self).cmds_file@, h)
            },
            r is Ok && home is None ==> final(self).processing_directory@
                == old(self).processing_directory@ && final(self).trash_directory@
                == old(self).trash_directory@ && final(self).cmds_file@ == old(self).cmds_file@,
    {
        let h1 = match &home {
            Some(h) => Some(h.clone()),
            None => None,
        };
        let h2 = match &home {
            Some(h) => Some(h.clone()),
            None => None,
        };
        let processing_directory = expand_tilde_with(self.processing_directory.as_str(), h1)?;
        let trash_directory = expand_tilde_with(self.trash_directory.as_str(), h2)?;
        let cmds_file = expand_tilde_with(self.cmds_file.as_str(), home)?;
        self.processing_directory = processing_directory;
        self.trash_directory = trash_directory;
        self.cmds_file = cmds_file;
        Ok(())
    }

    /// Expands `~` into the user's home directory in the three paths.
    pub fn expand_home(&mut self) -> (r: Result<(), String>)
        ensures
            r is Err ==> *final(self) == *old(self),
            r is Ok ==> final(self).display_mode == old(self).display_mode
                && final(self).source_position == old(self).source_position
                && final(self).fit_mode == old(self).fit_mode && final(self).padding
                == old(self).padding && final(self).move_mode == old(self).move_mode,
            r is Ok ==> exists|h: Seq<char>|
                {
                    &&& final(self).processing_directory@ == expand_tilde_spec(
                        old(self).processing_directory@,
                        h,
                    )
                    &&& final(self).trash_directory@ == expand_tilde_spec(old(self).trash_directory@, h)
                    &&& final(self).cmds_file@ == expand_tilde_spec(old(self).cmds_file@, h)
                },
    {
        let home = home_dir();
        let ghost h = match home {
            Some(ref h) => h@,
            None => Seq::empty(),
        };
        let r = self.expand_home_with(home);
        proof {
            if r is Ok {
                if home is None {
                    assert(!starts_with_home(old(self).processing_directory@));
                    assert(!starts_with_home(old(self).trash_directory@));
                    assert(!starts_with_home(old(self).cmds_file@));
                }
                assert(final(self).processing_directory@ == expand_tilde_spec(
                    old(self).processing_directory@,
                    h,
                ));
            }
        }
        r
    }
}

impl Default for AppSettings {
    fn default() -> (r: AppSettings)
        ensures
            r.processing_directory@ == Seq::<char>::empty(),
            r.trash_directory@ == Seq::<char>::empty(),
            r.cmds_file@ == Seq::<char>::empty(),
            r.display_mode == DisplayMode::Continuous,
            r.source_position == SourcePosition::Left,
            r.fit_mode == FitMode::FitBest,
            r.padding == 0,
            r.move_mode == MoveMode::Image,
    {
        AppSettings {
            processing_directory: String::new(),
            trash_directory: String::new(),
            cmds_file: String::new(),
            display_mode: DisplayMode::Continuous,
            source_position: SourcePosition::Left,
            fit_mode: FitMode::FitBest,
            padding: 0,
            move_mode: MoveMode::Image,
        }
    }
}

} // verus!
