//! The header of a save file: a fixed run of fields, two of which depend on
//! the version that wrote the file, and the list of mods.

use vstd::prelude::*;
use vstd::string::StringExecFns;
use crate::cursor::Deserialiser;
use crate::error::{Error, Fault};
use crate::grammar::{
    lemma_prepend_empty, lemma_prepend_push, prepend,
    take_bool, take_string, take_u16, take_u32, take_u32_optim, take_u8, take_version,
    take_version48, Parsed,
};
use crate::version::{BuildNumber, Version, Version48};

verus! {

/// One mod that a save was made with.
#[derive(Clone, Debug, PartialEq, Eq)]
pub struct SaveHeaderMod {
    pub name: String,
    pub version: Version48,
    pub crc: u32,
}

/// The mathematical value that a [`SaveHeaderMod`] stands for.
pub struct SaveHeaderModModel {
    pub name: Seq<char>,
    pub version: Version48,
    pub crc: u32,
}

impl View for SaveHeaderMod {
    type V = SaveHeaderModModel;

    open spec fn view(&self) -> SaveHeaderModModel {
        SaveHeaderModModel { name: self.name@, version: self.version, crc: self.crc }
    }
}

impl SaveHeaderMod {
    /// The name of the mod, a space and its version.
    pub fn to_string(&self) -> (s: String)
        ensures
            s@ == self.name@ + seq![' '] + self.version.text(),
    {
        proof {
            reveal_strlit(" ");
        }
        let s = self.name.clone().concat(" ").concat(self.version.to_string().as_str());
        assert(s@ =~= self.name@ + seq![' '] + self.version.text());
        s
    }
}

/// What a save file says of itself before its content begins.
#[derive(Clone, Debug, PartialEq, Eq)]
pub struct SaveHeader {
    pub factorio_version: Version,
    /// Name of the campaign, such as `freeplay`.
    pub campaign: String,
    /// Name of the campaign level.
    pub name: String,
    /// Name of the base mod.
    pub base_mod: String,
    pub difficulty: u8,
    pub finished: bool,
    /// Whether the victory condition has been met.
    pub player_won: bool,
    /// Name of the level that follows.
    pub next_level: String,
    pub can_continue: bool,
    pub finished_but_continuing: bool,
    /// Whether a replay is being recorded.
    pub saving_replay: bool,
    pub allow_non_admin_debug_options: bool,
    /// Version of the game that the save was loaded from.
    pub loaded_from: Version48,
    /// Build of the game that the save was loaded from.
    pub loaded_from_build: BuildNumber,
    /// Whether commands are allowed.
    pub allowed_commands: bool,
    /// The mods attached to the save, in the order of the file.
    pub mods: Vec<SaveHeaderMod>,
}

/// The mathematical value that a [`SaveHeader`] stands for.
pub struct SaveHeaderModel {
    pub factorio_version: Version,
    pub campaign: Seq<char>,
    pub name: Seq<char>,
    pub base_mod: Seq<char>,
    pub difficulty: u8,
    pub finished: bool,
    pub player_won: bool,
    pub next_level: Seq<char>,
    pub can_continue: bool,
    pub finished_but_continuing: bool,
    pub saving_replay: bool,
    pub allow_non_admin_debug_options: bool,
    pub loaded_from: Version48,
    pub loaded_from_build: BuildNumber,
    pub allowed_commands: bool,
    pub mods: Seq<SaveHeaderModModel>,
}

/// The values that a sequence of mods stands for, in order.
pub open spec fn mod_models(mods: Seq<SaveHeaderMod>) -> Seq<SaveHeaderModModel> {
    mods.map_values(|m: SaveHeaderMod| m@)
}

impl View for SaveHeader {
    type V = SaveHeaderModel;

    open spec fn view(&self) -> SaveHeaderModel {
        SaveHeaderModel {
            factorio_version: self.factorio_version,
            campaign: self.campaign@,
            name: self.name@,
            base_mod: self.base_mod@,
            difficulty: self.difficulty,
            finished: self.finished,
            player_won: self.player_won,
            next_level: self.next_level@,
            can_continue: self.can_continue,
            finished_but_continuing: self.finished_but_continuing,
            saving_replay: self.saving_replay,
            allow_non_admin_debug_options: self.allow_non_admin_debug_options,
            loaded_from: self.loaded_from,
            loaded_from_build: self.loaded_from_build,
            allowed_commands: self.allowed_commands,
            mods: mod_models(self.mods@),
        }
    }
}

/// The fields that open the header.
pub struct HeaderFront {
    pub factorio_version: Version,
    pub campaign: Seq<char>,
    pub name: Seq<char>,
    pub base_mod: Seq<char>,
    pub difficulty: u8,
}

/// The run of flags, with the name of the next level among them.
pub struct HeaderFlags {
    pub finished: bool,
    pub player_won: bool,
    pub next_level: Seq<char>,
    pub can_continue: bool,
    pub finished_but_continuing: bool,
    pub saving_replay: bool,
    pub allow_non_admin_debug_options: bool,
}

/// Where the save was loaded from.
pub struct HeaderOrigin {
    pub loaded_from: Version48,
    pub loaded_from_build: BuildNumber,
    pub allowed_commands: bool,
}

/// Whether a file of this version has the wider build number and the four
/// reserved bytes.
pub open spec fn is_wide_format(factorio_version: Version) -> bool {
    factorio_version.main >= 2
}

/// The version, a boolean that is passed over, three strings and the
/// difficulty.
pub open spec fn take_header_front(s: Seq<u8>) -> Parsed<HeaderFront> {
    match take_version(s) {
        Err(f) => Err(f),
        Ok((factorio_version, r1)) => match take_bool(r1) {
            Err(f) => Err(f),
            Ok((_, r2)) => match take_string(r2, false) {
                Err(f) => Err(f),
                Ok((campaign, r3)) => match take_string(r3, false) {
                    Err(f) => Err(f),
                    Ok((name, r4)) => match take_string(r4, false) {
                        Err(f) => Err(f),
                        Ok((base_mod, r5)) => match take_u8(r5) {
                            Err(f) => Err(f),
                            Ok((difficulty, r6)) => Ok(
                                (
                                    HeaderFront {
                                        factorio_version,
                                        campaign,
                                        name,
                                        base_mod,
                                        difficulty,
                                    },
                                    r6,
                                ),
                            ),
                        },
                    },
                },
            },
        },
    }
}

/// Two flags, the name of the next level, four flags.
pub open spec fn take_header_flags(s: Seq<u8>) -> Parsed<HeaderFlags> {
    match take_bool(s) {
        Err(f) => Err(f),
        Ok((finished, r1)) => match take_bool(r1) {
            Err(f) => Err(f),
            Ok((player_won, r2)) => match take_string(r2, false) {
                Err(f) => Err(f),
                Ok((next_level, r3)) => match take_bool(r3) {
                    Err(f) => Err(f),
                    Ok((can_continue, r4)) => match take_bool(r4) {
                        Err(f) => Err(f),
                        Ok((finished_but_continuing, r5)) => match take_bool(r5) {
                            Err(f) => Err(f),
                            Ok((saving_replay, r6)) => match take_bool(r6) {
                                Err(f) => Err(f),
                                Ok((allow_non_admin_debug_options, r7)) => Ok(
                                    (
                                        HeaderFlags {
                                            finished,
                                            player_won,
                                            next_level,
                                            can_continue,
                                            finished_but_continuing,
                                            saving_replay,
                                            allow_non_admin_debug_options,
                                        },
                                        r7,
                                    ),
                                ),
                            },
                        },
                    },
                },
            },
        },
    }
}

/// The build number: 32 bits in the wide format, 16 bits otherwise.
pub open spec fn take_build(s: Seq<u8>, wide: bool) -> Parsed<BuildNumber> {
    if wide {
        match take_u32(s) {
            Err(f) => Err(f),
            Ok((build, rest)) => Ok((BuildNumber::Build32(build), rest)),
        }
    } else {
        match take_u16(s) {
            Err(f) => Err(f),
            Ok((build, rest)) => Ok((BuildNumber::Build16(build), rest)),
        }
    }
}

/// Four bytes, one by one, of which nothing is kept.
pub open spec fn take_reserved(s: Seq<u8>) -> Parsed<()> {
    match take_u8(s) {
        Err(f) => Err(f),
        Ok((_, r1)) => match take_u8(r1) {
            Err(f) => Err(f),
            Ok((_, r2)) => match take_u8(r2) {
                Err(f) => Err(f),
                Ok((_, r3)) => match take_u8(r3) {
                    Err(f) => Err(f),
                    Ok((_, r4)) => Ok(((), r4)),
                },
            },
        },
    }
}

/// The version and build that the save was loaded from and the flag for
/// commands; in the wide format four reserved bytes follow.
pub open spec fn take_header_origin(s: Seq<u8>, wide: bool) -> Parsed<HeaderOrigin> {
    match take_version48(s) {
        Err(f) => Err(f),
        Ok((loaded_from, r1)) => match take_build(r1, wide) {
            Err(f) => Err(f),
            Ok((loaded_from_build, r2)) => match take_bool(r2) {
                Err(f) => Err(f),
                Ok((allowed_commands, r3)) => {
                    let origin = HeaderOrigin { loaded_from, loaded_from_build, allowed_commands };
                    if wide {
                        match take_reserved(r3) {
                            Err(f) => Err(f),
                            Ok((_, r4)) => Ok((origin, r4)),
                        }
                    } else {
                        Ok((origin, r3))
                    }
                },
            },
        },
    }
}

/// One mod: its name, its version and its checksum.
pub open spec fn take_mod(s: Seq<u8>) -> Parsed<SaveHeaderModModel> {
    match take_string(s, false) {
        Err(f) => Err(f),
        Ok((name, r1)) => match take_version48(r1) {
            Err(f) => Err(f),
            Ok((version, r2)) => match take_u32(r2) {
                Err(f) => Err(f),
                Ok((crc, r3)) => Ok((SaveHeaderModModel { name, version, crc }, r3)),
            },
        },
    }
}

/// `count` mods, one after the other.
pub open spec fn take_mods(s: Seq<u8>, count: nat) -> Parsed<Seq<SaveHeaderModModel>>
    decreases count,
{
    if count == 0 {
        Ok((Seq::empty(), s))
    } else {
        match take_mod(s) {
            Err(f) => Err(f),
            Ok((first, rest)) => prepend(seq![first], take_mods(rest, (count - 1) as nat)),
        }
    }
}

/// The whole header, and the bytes that follow it.
pub open spec fn take_save_header(s: Seq<u8>) -> Parsed<SaveHeaderModel> {
    match take_header_front(s) {
        Err(f) => Err(f),
        Ok((front, r1)) => match take_header_flags(r1) {
            Err(f) => Err(f),
            Ok((flags, r2)) => match take_header_origin(r2, is_wide_format(front.factorio_version)) {
                Err(f) => Err(f),
                Ok((origin, r3)) => match take_u32_optim(r3) {
                    Err(f) => Err(f),
                    Ok((count, r4)) => match take_mods(r4, count as nat) {
                        Err(f) => Err(f),
                        Ok((mods, r5)) => Ok(
                            (
                                SaveHeaderModel {
                                    factorio_version: front.factorio_version,
                                    campaign: front.campaign,
                                    name: front.name,
                                    base_mod: front.base_mod,
                                    difficulty: front.difficulty,
                                    finished: flags.finished,
                                    player_won: flags.player_won,
                                    next_level: flags.next_level,
                                    can_continue: flags.can_continue,
                                    finished_but_continuing: flags.finished_but_continuing,
                                    saving_replay: flags.saving_replay,
                                    allow_non_admin_debug_options: flags.allow_non_admin_debug_options,
                                    loaded_from: origin.loaded_from,
                                    loaded_from_build: origin.loaded_from_build,
                                    allowed_commands: origin.allowed_commands,
                                    mods,
                                },
                                r5,
                            ),
                        ),
                    },
                },
            },
        },
    }
}

/// What a buffer decodes to as a save header; what follows the header is
/// not looked at.
pub open spec fn decode_save_header(s: Seq<u8>) -> Result<SaveHeaderModel, Fault> {
    match take_save_header(s) {
        Err(f) => Err(f),
        Ok((header, _)) => Ok(header),
    }
}

impl<'a> Deserialiser<'a> {
    /// Reads the fields that open the header: version, campaign, name, base
    /// mod and difficulty.
    fn parse_header_front(&mut self) -> (r: Result<(Version, String, String, String, u8), Error>)
        ensures
            match take_header_front(old(self)@) {
                Ok((front, rest)) => r matches Ok(got) && final(self)@ == rest && front
                    == (HeaderFront {
                    factorio_version: got.0,
                    campaign: got.1@,
                    name: got.2@,
                    base_mod: got.3@,
                    difficulty: got.4,
                }),
                Err(f) => r matches Err(e) && e@ == f,
            },
    {
        let factorio_version = self.parse_version()?;
        let _ = self.parse_bool()?;
        let campaign = self.parse_string_saveheader()?;
        let name = self.parse_string_saveheader()?;
        let base_mod = self.parse_string_saveheader()?;
        let difficulty = self.next_u8()?;
        Ok((factorio_version, campaign, name, base_mod, difficulty))
    }

    /// Reads the run of flags and the name of the next level: finished,
    /// player won, next level, can continue, finished but continuing, saving
    /// replay, allow non-admin debug options.
    fn parse_header_flags(&mut self) -> (r: Result<
        (bool, bool, String, bool, bool, bool, bool),
        Error,
    >)
        ensures
            match take_header_flags(old(self)@) {
                Ok((flags, rest)) => r matches Ok(got) && final(self)@ == rest && flags
                    == (HeaderFlags {
                    finished: got.0,
                    player_won: got.1,
                    next_level: got.2@,
                    can_continue: got.3,
                    finished_but_continuing: got.4,
                    saving_replay: got.5,
                    allow_non_admin_debug_options: got.6,
                }),
                Err(f) => r matches Err(e) && e@ == f,
            },
    {
        let finished = self.parse_bool()?;
        let player_won = self.parse_bool()?;
        let next_level = self.parse_string_saveheader()?;
        let can_continue = self.parse_bool()?;
        let finished_but_continuing = self.parse_bool()?;
        let saving_replay = self.parse_bool()?;
        let allow_non_admin_debug_options = self.parse_bool()?;
        Ok(
            (
                finished,
                player_won,
                next_level,
                can_continue,
                finished_but_continuing,
                saving_replay,
                allow_non_admin_debug_options,
            ),
        )
    }

    /// Reads where the save was loaded from; `wide` says whether the build
    /// number has 32 bits and four reserved bytes follow the flag.
    fn parse_header_origin(&mut self, wide: bool) -> (r: Result<
        (Version48, BuildNumber, bool),
        Error,
    >)
        ensures
            match take_header_origin(old(self)@, wide) {
                Ok((origin, rest)) => r matches Ok(got) && final(self)@ == rest && origin
                    == (HeaderOrigin {
                    loaded_from: got.0,
                    loaded_from_build: got.1,
                    allowed_commands: got.2,
                }),
                Err(f) => r matches Err(e) && e@ == f,
            },
    {
        let loaded_from = self.parse_version48()?;
        let loaded_from_build = match wide {
            true => BuildNumber::Build32(self.next_u32()?),
            false => BuildNumber::Build16(self.next_u16()?),
        };
        let allowed_commands = self.parse_bool()?;
        if wide {
            self.next_u8()?;
            self.next_u8()?;
            self.next_u8()?;
            self.next_u8()?;
        }
        Ok((loaded_from, loaded_from_build, allowed_commands))
    }

    /// Reads `count` mods.
    fn parse_mods(&mut self, count: u32) -> (r: Result<Vec<SaveHeaderMod>, Error>)
        ensures
            match take_mods(old(self)@, count as nat) {
                Ok((mods, rest)) => r matches Ok(got) && mod_models(got@) == mods && final(self)@
                    == rest,
                Err(f) => r matches Err(e) && e@ == f,
            },
    {
        let mut mods: Vec<SaveHeaderMod> = Vec::new();
        let mut i: u32 = 0;
        proof {
            lemma_prepend_empty(take_mods(self@, count as nat));
            assert(mod_models(mods@) =~= Seq::empty());
        }
        while i < count
            invariant
                i <= count,
                take_mods(old(self)@, count as nat) == prepend(
                    mod_models(mods@),
                    take_mods(self@, (count - i) as nat),
                ),
            decreases count - i,
        {
            let name = self.parse_string_saveheader()?;
            let version = self.parse_version48()?;
            let crc = self.next_u32()?;
            let one = SaveHeaderMod { name, version, crc };
            proof {
                lemma_prepend_push(
                    mod_models(mods@),
                    one@,
                    take_mods(self@, (count - i - 1) as nat),
                );
                assert(mod_models(mods@.push(one)) =~= mod_models(mods@).push(one@));
            }
            mods.push(one);
            i += 1;
        }
        proof {
            assert(mod_models(mods@) + Seq::<SaveHeaderModModel>::empty() =~= mod_models(mods@));
        }
        Ok(mods)
    }
}

impl TryFrom<&[u8]> for SaveHeader {
    type Error = Error;

    /// Decodes the header at the start of a buffer. A file whose version
    /// has `main` 2 or more holds a 32-bit build number and four reserved
    /// bytes before the count of mods; an earlier one a 16-bit build number
    /// and no such bytes.
    fn try_from(input: &[u8]) -> (r: Result<SaveHeader, Error>)
        ensures
            match decode_save_header(input@) {
                Ok(header) => r matches Ok(h) && h@ == header,
                Err(f) => r matches Err(e) && e@ == f,
            },
    {
        let mut d = Deserialiser::new(input);
        let (factorio_version, campaign, name, base_mod, difficulty) = d.parse_header_front()?;
        let (
            finished,
            player_won,
            next_level,
            can_continue,
            finished_but_continuing,
            saving_replay,
            allow_non_admin_debug_options,
        ) = d.parse_header_flags()?;
        let (loaded_from, loaded_from_build, allowed_commands) = d.parse_header_origin(
            factorio_version.main >= 2,
        )?;
        let num_mods = d.next_u32_optim()?;
        let mods = d.parse_mods(num_mods)?;
        Ok(
            SaveHeader {
                factorio_version,
                campaign,
                name,
                base_mod,
                difficulty,
                finished,
                player_won,
                next_level,
                can_continue,
                finished_but_continuing,
                saving_replay,
                allow_non_admin_debug_options,
                loaded_from,
                loaded_from_build,
                allowed_commands,
                mods,
            },
        )
    }
}

/// What decoding returns is stated by the `ensures` of `try_from`, over
/// views; no value of the trait's own spec function is claimed.
impl vstd::std_specs::convert::TryFromSpecImpl<&[u8]> for SaveHeader {
    open spec fn obeys_try_from_spec() -> bool {
        false
    }

    open spec fn try_from_spec(input: &[u8]) -> Result<Self, Error> {
        arbitrary()
    }
}

} // verus!
