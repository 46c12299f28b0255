//! The mod-settings record: a version and three named sections.

use vstd::prelude::*;
use crate::cursor::Deserialiser;
use crate::error::{Error, Fault};
use crate::grammar::{take_bool, take_version};
use crate::layout::{bool_bytes, version_bytes};
use crate::tree::{lemma_pair_models, pair_models, PropertyTree, TreeModel};
use crate::tree_format::{take_tree, tree_bytes};
use crate::version::Version;
use crate::writer::Serialiser;

verus! {

/// The settings of all mods: the game version that wrote them and the
/// three sections.
#[derive(Clone, Debug, PartialEq, Eq)]
pub struct ModSettings {
    pub version: Version,
    pub startup: PropertyTree,
    pub runtime_global: PropertyTree,
    pub runtime_per_user: PropertyTree,
}

/// The mathematical value that a [`ModSettings`] stands for.
pub struct ModSettingsModel {
    pub version: Version,
    pub startup: TreeModel,
    pub runtime_global: TreeModel,
    pub runtime_per_user: TreeModel,
}

impl View for ModSettings {
    type V = ModSettingsModel;

    open spec fn view(&self) -> ModSettingsModel {
        ModSettingsModel {
            version: self.version,
            startup: self.startup@,
            runtime_global: self.runtime_global@,
            runtime_per_user: self.runtime_per_user@,
        }
    }
}

/// The value under `key` in `pairs`: that of the last pair with this key.
pub open spec fn find_last(pairs: Seq<(Seq<char>, TreeModel)>, key: Seq<char>) -> Option<TreeModel>
    decreases pairs.len(),
{
    if pairs.len() == 0 {
        None
    } else if pairs.last().0 == key {
        Some(pairs.last().1)
    } else {
        find_last(pairs.drop_last(), key)
    }
}

/// The three sections out of the pairs of the top-level dictionary, or the
/// complaint about the first that is missing.
pub open spec fn sections_of(version: Version, pairs: Seq<(Seq<char>, TreeModel)>) -> Result<
    ModSettingsModel,
    Fault,
> {
    match find_last(pairs, "startup"@) {
        None => Err(Fault::Syntax("Settings section 'startup' missing"@)),
        Some(startup) => match find_last(pairs, "runtime-global"@) {
            None => Err(Fault::Syntax("Settings section 'runtime-global' missing"@)),
            Some(runtime_global) => match find_last(pairs, "runtime-per-user"@) {
                None => Err(Fault::Syntax("Settings section 'runtime-per-user' missing"@)),
                Some(runtime_per_user) => Ok(
                    ModSettingsModel { version, startup, runtime_global, runtime_per_user },
                ),
            },
        },
    }
}

/// What a buffer decodes to as mod settings: a version; a boolean that
/// must be false; a tree that must be a dictionary and hold the three
/// sections; and then the end of the buffer.
pub open spec fn decode_mod_settings(s: Seq<u8>) -> Result<ModSettingsModel, Fault> {
    match take_version(s) {
        Err(f) => Err(f),
        Ok((version, r1)) => match take_bool(r1) {
            Err(f) => Err(f),
            Ok((sentinel, r2)) => if sentinel {
                Err(Fault::Syntax("After-version sentinel expected to be false, got true"@))
            } else {
                match take_tree(r2) {
                    Err(f) => Err(f),
                    Ok((tree, r3)) => match tree {
                        TreeModel::Dictionary(pairs) => match sections_of(version, pairs) {
                            Err(f) => Err(f),
                            Ok(settings) => if r3.len() == 0 {
                                Ok(settings)
                            } else {
                                Err(Fault::TrailingBytes)
                            },
                        },
                        _ => Err(Fault::Syntax("Top-level PropertyTree not dictionary type"@)),
                    },
                }
            },
        },
    }
}

/// The dictionary that holds the three sections in their fixed order.
pub open spec fn top_level(m: ModSettingsModel) -> TreeModel {
    TreeModel::Dictionary(
        seq![
            ("startup"@, m.startup),
            ("runtime-global"@, m.runtime_global),
            ("runtime-per-user"@, m.runtime_per_user),
        ],
    )
}

/// The bytes of mod settings: the version, the byte 0 and the dictionary
/// of the three sections.
pub open spec fn encode_mod_settings(m: ModSettingsModel) -> Seq<u8> {
    version_bytes(m.version) + bool_bytes(false) + tree_bytes(top_level(m))
}

/// `r` is the success that holds the bytes of `m`.
pub open spec fn is_encoding_of(r: Result<Vec<u8>, Error>, m: ModSettingsModel) -> bool {
    r matches Ok(bytes) && bytes@ == encode_mod_settings(m)
}

/// The three section names differ from one another.
pub proof fn lemma_section_names_differ()
    ensures
        "startup"@ != "runtime-global"@,
        "startup"@ != "runtime-per-user"@,
        "runtime-global"@ != "runtime-per-user"@,
{
    reveal_strlit("startup");
    reveal_strlit("runtime-global");
    reveal_strlit("runtime-per-user");
    assert("startup"@.len() == 7);
    assert("runtime-global"@.len() == 14);
    assert("runtime-per-user"@.len() == 16);
}

/// The model of an optional tree.
pub open spec fn optional_model(tree: Option<PropertyTree>) -> Option<TreeModel> {
    match tree {
        None => None,
        Some(t) => Some(t@),
    }
}

/// Picks the three sections out of the pairs of a dictionary.
fn take_sections(version: Version, dict: Vec<(String, PropertyTree)>) -> (r: Result<
    ModSettings,
    Error,
>)
    ensures
        match sections_of(version, pair_models(dict@)) {
            Ok(settings) => r matches Ok(m) && m@ == settings,
            Err(f) => r matches Err(e) && e@ == f,
        },
{
    let name_startup = "startup".to_owned();
    let name_global = "runtime-global".to_owned();
    let name_per_user = "runtime-per-user".to_owned();
    let mut startup: Option<PropertyTree> = None;
    let mut runtime_global: Option<PropertyTree> = None;
    let mut runtime_per_user: Option<PropertyTree> = None;
    let ghost models = pair_models(dict@);
    proof {
        lemma_section_names_differ();
        lemma_pair_models(dict@);
    }
    for pair in iter: dict
        invariant
            name_startup@ == "startup"@,
            name_global@ == "runtime-global"@,
            name_per_user@ == "runtime-per-user"@,
            "startup"@ != "runtime-global"@,
            "startup"@ != "runtime-per-user"@,
            "runtime-global"@ != "runtime-per-user"@,
            models == pair_models(iter.seq()),
            models.len() == iter.seq().len(),
            optional_model(startup) == find_last(models.take(iter.index() as int), "startup"@),
            optional_model(runtime_global) == find_last(
                models.take(iter.index() as int),
                "runtime-global"@,
            ),
            optional_model(runtime_per_user) == find_last(
                models.take(iter.index() as int),
                "runtime-per-user"@,
            ),
    {
        proof {
            lemma_pair_models(iter.seq());
            assert(models.take(iter.index() + 1).drop_last() =~= models.take(iter.index() as int));
        }
        let (key, value) = pair;
        if key == name_startup {
            startup = Some(value);
        } else if key == name_global {
            runtime_global = Some(value);
        } else if key == name_per_user {
            runtime_per_user = Some(value);
        }
    }
    assert(models.take(models.len() as int) =~= models);
    let startup = match startup {
        None => {
            return Err(Error::Syntax("Settings section 'startup' missing".to_owned()));
        },
        Some(d) => d,
    };
    let runtime_global = match runtime_global {
        None => {
            return Err(Error::Syntax("Settings section 'runtime-global' missing".to_owned()));
        },
        Some(d) => d,
    };
    let runtime_per_user = match runtime_per_user {
        None => {
            return Err(Error::Syntax("Settings section 'runtime-per-user' missing".to_owned()));
        },
        Some(d) => d,
    };
    Ok(ModSettings { version, startup, runtime_global, runtime_per_user })
}

impl TryFrom<&[u8]> for ModSettings {
    type Error = Error;

    /// Decodes a whole buffer as mod settings.
    fn try_from(input: &[u8]) -> (r: Result<ModSettings, Error>)
        ensures
            match decode_mod_settings(input@) {
                Ok(settings) => r matches Ok(m) && m@ == settings,
                Err(f) => r matches Err(e) && e@ == f,
            },
    {
        let mut d = Deserialiser::new(input);
        let version = d.parse_version()?;
        let false_sentinel = d.parse_bool()?;
        if false_sentinel {
            return Err(
                Error::Syntax("After-version sentinel expected to be false, got true".to_owned()),
            );
        }
        let settings = match d.parse_property_tree()? {
            PropertyTree::Dictionary(dict) => take_sections(version, dict)?,
            _ => {
                return Err(Error::Syntax("Top-level PropertyTree not dictionary type".to_owned()));
            },
        };
        match d.peek_u8() {
            Err(Error::Eof) => Ok(settings),
            _ => Err(Error::TrailingBytes),
        }
    }
}

/// What decoding returns is stated by the `ensures` of `try_from`, over
/// views; no value of the trait's own spec function is claimed.
impl vstd::std_specs::convert::TryFromSpecImpl<&[u8]> for ModSettings {
    open spec fn obeys_try_from_spec() -> bool {
        false
    }

    open spec fn try_from_spec(input: &[u8]) -> Result<Self, Error> {
        arbitrary()
    }
}

impl TryInto<Vec<u8>> for ModSettings {
    type Error = Error;

    /// Encodes the settings: the sections are written in their fixed order.
    /// It always succeeds.
    fn try_into(self) -> (r: Result<Vec<u8>, Error>)
        ensures
            is_encoding_of(r, self@),
    {
        let mut s = Serialiser::new();
        s.write_version(u64::from(self.version));
        s.write_bool(false);
        let mut dict: Vec<(String, PropertyTree)> = Vec::new();
        dict.push(("startup".to_owned(), self.startup));
        dict.push(("runtime-global".to_owned(), self.runtime_global));
        dict.push(("runtime-per-user".to_owned(), self.runtime_per_user));
        proof {
            lemma_pair_models(dict@);
            self.version.lemma_unpacked_packed();
            assert(pair_models(dict@) =~= top_level(self@)->Dictionary_0);
        }
        let top_level = PropertyTree::Dictionary(dict);
        s.write_property_tree(top_level)?;
        assert(s@ =~= encode_mod_settings(self@));
        Ok(s.bytes)
    }
}

/// What encoding returns is stated by the `ensures` of `try_into`, over
/// views; no value of the trait's own spec function is claimed.
impl vstd::std_specs::convert::TryIntoSpecImpl<Vec<u8>> for ModSettings {
    open spec fn obeys_try_into_spec() -> bool {
        false
    }

    open spec fn try_into_spec(self) -> Result<Vec<u8>, Error> {
        arbitrary()
    }
}

} // verus!
