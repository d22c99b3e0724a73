//! The command-line surface's data model: which game profile is targeted,
//! which action runs, and the fixed per-game locations the filesystem is
//! built from. Argument parsing itself, and running the actions, live with
//! the binary; the decisions here are plain values.

use vstd::prelude::*;

use crate::strings::string_push;
use crate::vfs;

verus! {

use vstd::string::StrSliceExecFns;

/// The game profiles the command line accepts.
#[derive(Copy, Clone, Debug, PartialEq, Eq, Structural, PartialOrd, Ord)]
pub enum GameType {
    /// Elden Ring on PC.
    ErPc,
    /// Nightreign on PC.
    NrPc,
}

impl From<GameType> for vfs::GameType {
    fn from(val: GameType) -> (r: Self) {
        match val {
            GameType::ErPc => vfs::GameType::EldenRing,
            GameType::NrPc => vfs::GameType::Nightreign,
        }
    }
}

impl vstd::std_specs::convert::FromSpecImpl<GameType> for vfs::GameType {
    open spec fn obeys_from_spec() -> bool {
        true
    }

    open spec fn from_spec(val: GameType) -> Self {
        match val {
            GameType::ErPc => vfs::GameType::EldenRing,
            GameType::NrPc => vfs::GameType::Nightreign,
        }
    }
}

/// The asset formats the describe action can name.
#[derive(Copy, Clone, Debug, PartialEq, Eq, Structural, PartialOrd, Ord)]
pub enum AssetType {
    Bnd,
    EntryFileList,
    Flver,
    Matbin,
    Msb,
}

/// One action of the command line.
#[derive(Debug)]
pub enum Action {
    /// Describe the asset with a given type and name.
    Describe {
        /// Chain of nested container names leading to the asset.
        nested_bnd_names: Vec<String>,
        /// The asset's format.
        ty: AssetType,
        /// The asset's name.
        name: String,
    },
    /// Extract the contents of the virtual filesystem.
    Extract {
        /// Unwrap nested archives found along the way.
        recursive: bool,
        /// A file name filter applied to files being extracted.
        filter: Option<String>,
        /// The folder files are extracted to.
        output_path: String,
    },
    /// An interactive session.
    Repl,
}

/// The parsed command line: the installation root, the game profile, and
/// the action to run.
#[derive(Debug)]
pub struct Cli {
    /// The game installation's root directory.
    pub game_path: String,
    /// The targeted game profile.
    pub game_type: GameType,
    /// The action to run.
    pub command: Action,
}

/// The directory key material is looked up under, per game profile.
pub fn key_directory(game_type: GameType) -> (r: String)
    ensures
        game_type == GameType::ErPc ==> r@ == "keys/er_pc"@,
        game_type == GameType::NrPc ==> r@ == "keys/nr_pc"@,
{
    match game_type {
        GameType::ErPc => "keys/er_pc".to_owned(),
        GameType::NrPc => "keys/nr_pc".to_owned(),
    }
}

/// The per-game subdirectory extracted files are written under.
pub fn output_game_ext(game_type: GameType) -> (r: String)
    ensures
        game_type == GameType::ErPc ==> r@ == "er-pc"@,
        game_type == GameType::NrPc ==> r@ == "nr-pc"@,
{
    match game_type {
        GameType::ErPc => "er-pc".to_owned(),
        GameType::NrPc => "nr-pc".to_owned(),
    }
}

/// The fixed, game-specific relative locations of the archive pairs under
/// an installation root, in loading order.
pub fn archive_names(game_type: vfs::GameType) -> (r: Vec<String>)
    ensures
        game_type == vfs::GameType::EldenRing ==> {
            &&& r@.len() == 7
            &&& r@[0]@ == "Data0"@ && r@[1]@ == "Data1"@ && r@[2]@ == "Data2"@
            &&& r@[3]@ == "Data3"@ && r@[4]@ == "DLC"@ && r@[5]@ == "sd/sd"@
            &&& r@[6]@ == "sd/sd_dlc02"@
        },
        game_type == vfs::GameType::Nightreign ==> {
            &&& r@.len() == 5
            &&& r@[0]@ == "Data0"@ && r@[1]@ == "Data1"@ && r@[2]@ == "Data2"@
            &&& r@[3]@ == "Data3"@ && r@[4]@ == "sd/sd"@
        },
{
    match game_type {
        vfs::GameType::EldenRing => {
            let mut v: Vec<String> = Vec::new();
            v.push("Data0".to_owned());
            v.push("Data1".to_owned());
            v.push("Data2".to_owned());
            v.push("Data3".to_owned());
            v.push("DLC".to_owned());
            v.push("sd/sd".to_owned());
            v.push("sd/sd_dlc02".to_owned());
            v
        },
        vfs::GameType::Nightreign => {
            let mut v: Vec<String> = Vec::new();
            v.push("Data0".to_owned());
            v.push("Data1".to_owned());
            v.push("Data2".to_owned());
            v.push("Data3".to_owned());
            v.push("sd/sd".to_owned());
            v
        },
    }
}

/// The archive name used for key lookup: the final path component of an
/// archive's relative location, as the original key files are named.
pub fn archive_stem(path: &str) -> (r: String)
    ensures
        r@ == crate::strings::final_component_chars(path@),
{
    let n: usize = path.unicode_len();
    let mut start: usize = 0;
    let mut k: usize = 0;
    while k < n
        invariant
            n == path@.len(),
            0 <= start <= k <= n,
            forall|j: int| start <= j < k ==> !crate::strings::is_sep_char(#[trigger] path@[j]),
            start > 0 ==> crate::strings::is_sep_char(path@[start - 1]),
        decreases n - k,
    {
        let c: char = path.get_char(k);
        if c == '/' || c == '\\' {
            start = k + 1;
        }
        k = k + 1;
    }
    let mut out: String = String::new();
    let mut i: usize = start;
    while i < n
        invariant
            n == path@.len(),
            start <= i <= n,
            out@ == path@.subrange(start as int, i as int),
        decreases n - i,
    {
        string_push(&mut out, path.get_char(i));
        proof {
            assert(out@ =~= path@.subrange(start as int, i + 1));
        }
        i = i + 1;
    }
    proof {
        crate::strings::lemma_final_component_chars_suffix(path@, start as int);
        assert(out@ =~= path@.skip(start as int));
    }
    out
}

} // verus!
