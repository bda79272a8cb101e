//! A place file as the migration reads it: its instances, the scripts and
//! animations among them, and the credential to act with.

use vstd::prelude::*;
use crate::asset_id::{parse_id, token_id};
use crate::outcome::IdMapping;
use crate::patch::{patch_text, patched, CONTENT_ID_DIGITS, SCRIPT_ID_DIGITS};
use crate::resolver::{commands_agree, Resolver, ResolverCommand, ResolverModel};
use crate::script::{
    collected, candidates_in, find_all, ids_in_source, is_script_class, regex_matches, same_text,
    texts, Script, ScriptType,
};
use crate::uploader::AnimationUploader;

verus! {

/// The pattern of the number in the content id of an animation.
pub const NUMBER_PATTERN: &'static str = r"\d+";

/// The class of the instances that refer to an animation asset.
pub const ANIMATION_CLASS: &'static str = "Animation";

/// What is missing from a configuration.
#[derive(Clone, Copy, Debug, PartialEq, Eq, Structural)]
pub enum ConfigError {
    /// No credential is set where one is required.
    MissingCredential,
    /// No file path is set.
    MissingFilePath,
}

/// An instance of a place file, as far as the migration reads it.
#[derive(Clone, Debug)]
pub struct Instance {
    /// The class name.
    pub class: String,
    /// The `Source` property, if the instance has one that is a string.
    pub source: Option<String>,
    /// The `AnimationId` property, if the instance has one that is a
    /// content id.
    pub animation_id: Option<String>,
}

/// An animation instance and the content id it refers to.
#[derive(Clone, Debug)]
pub struct Animation {
    /// Position of the instance among the instances of the file.
    pub instance: usize,
    pub animation_id: String,
}

impl Animation {
    pub fn new(instance: usize, animation_id: String) -> (animation: Self)
        ensures
            animation.instance == instance,
            animation.animation_id == animation_id,
    {
        Self { instance, animation_id }
    }

    pub fn with_info(instance: usize, animation_id: String) -> (animation: Self)
        ensures
            animation.instance == instance,
            animation.animation_id == animation_id,
    {
        Self { instance, animation_id }
    }
}

/// A place file and the credential to act with.
pub struct StudioParser {
    pub roblosecurity: Option<String>,
    pub instances: Vec<Instance>,
}

/// The script type of one of the three script classes.
pub open spec fn known_type(class: Seq<char>) -> ScriptType {
    if class == "Script"@ {
        ScriptType::Script
    } else if class == "LocalScript"@ {
        ScriptType::LocalScript
    } else {
        ScriptType::ModuleScript
    }
}

/// The script that the instance at position `i` is, if it is one: its
/// class is a script class and it has a source.
pub open spec fn script_at(instances: Seq<Instance>, i: int) -> Option<Script> {
    if is_script_class(instances[i].class@) {
        match instances[i].source {
            Some(source) => Some(
                Script {
                    instance: i as usize,
                    source,
                    script_type: known_type(instances[i].class@),
                },
            ),
            None => None,
        }
    } else {
        None
    }
}

/// The scripts among the first `n` instances, in their order.
pub open spec fn scripts_of(instances: Seq<Instance>, n: int) -> Seq<Script>
    decreases n,
{
    if n <= 0 {
        Seq::empty()
    } else {
        match script_at(instances, n - 1) {
            Some(script) => scripts_of(instances, n - 1).push(script),
            None => scripts_of(instances, n - 1),
        }
    }
}

/// The asset ids that the sources of a list of scripts mention, each once,
/// in the order of first mention.
pub open spec fn ids_of_scripts(scripts: Seq<Script>) -> Seq<u64>
    decreases scripts.len(),
{
    if scripts.len() == 0 {
        Seq::empty()
    } else {
        collected(ids_of_scripts(scripts.drop_last()), candidates_in(scripts.last().source@))
    }
}

/// The asset ids that the source of one script mentions, each once, in the
/// order of first mention.
pub open spec fn ids_in_script(script: Script) -> Seq<u64> {
    collected(Seq::empty(), candidates_in(script.source@))
}

/// The asset id that a content id names: the first run of digits in it,
/// read as a number.
pub open spec fn content_asset_id(content_id: Seq<char>) -> Option<u64> {
    match regex_matches(NUMBER_PATTERN@, content_id) {
        Some(found) => first_id(found),
        None => None,
    }
}

/// The asset id that the first of a list of candidate texts names.
pub open spec fn first_id(found: Seq<Seq<char>>) -> Option<u64> {
    if found.len() > 0 {
        token_id(found[0])
    } else {
        None
    }
}

/// The asset id that the instance at position `i` refers to, if it is an
/// animation whose content id names one.
pub open spec fn animation_at(instances: Seq<Instance>, i: int) -> Option<u64> {
    if instances[i].class@ == ANIMATION_CLASS@ {
        match instances[i].animation_id {
            Some(content_id) => content_asset_id(content_id@),
            None => None,
        }
    } else {
        None
    }
}

/// The asset ids that the animations among the first `n` instances refer
/// to, in their order.
pub open spec fn animation_ids_of(instances: Seq<Instance>, n: int) -> Seq<u64>
    decreases n,
{
    if n <= 0 {
        Seq::empty()
    } else {
        match animation_at(instances, n - 1) {
            Some(id) => animation_ids_of(instances, n - 1).push(id),
            None => animation_ids_of(instances, n - 1),
        }
    }
}

/// The text of an optional string.
pub open spec fn text_of(value: Option<String>) -> Option<Seq<char>> {
    match value {
        Some(text) => Some(text@),
        None => None,
    }
}

/// The source of an instance after the ids in scripts are rewritten: the
/// source of a script is patched, any other source stays as it is.
pub open spec fn patched_source(
    instance: Instance,
    mapping: Map<Seq<char>, Seq<char>>,
) -> Option<Seq<char>> {
    match instance.source {
        Some(source) => Some(
            if is_script_class(instance.class@) {
                patched(source@, mapping, SCRIPT_ID_DIGITS as nat)
            } else {
                source@
            },
        ),
        None => None,
    }
}

/// The content id of an instance after the ids in animations are
/// rewritten: the content id of an animation is patched, any other stays
/// as it is.
pub open spec fn patched_content(
    instance: Instance,
    mapping: Map<Seq<char>, Seq<char>>,
) -> Option<Seq<char>> {
    match instance.animation_id {
        Some(content_id) => Some(
            if instance.class@ == ANIMATION_CLASS@ {
                patched(content_id@, mapping, CONTENT_ID_DIGITS as nat)
            } else {
                content_id@
            },
        ),
        None => None,
    }
}

fn clone_text(value: &Option<String>) -> (copy: Option<String>)
    ensures
        copy == *value,
{
    match value {
        Some(text) => Some(text.clone()),
        None => None,
    }
}

/// The animation that the instance at position `i` is, if it is one: its
/// class is the animation class and its content id is not empty.
pub open spec fn animation_instance_at(instances: Seq<Instance>, i: int) -> Option<Animation> {
    if instances[i].class@ == ANIMATION_CLASS@ {
        match instances[i].animation_id {
            Some(content_id) => if content_id@.len() > 0 {
                Some(Animation { instance: i as usize, animation_id: content_id })
            } else {
                None
            },
            None => None,
        }
    } else {
        None
    }
}

/// The animations among the first `n` instances, in their order.
pub open spec fn animations_of(instances: Seq<Instance>, n: int) -> Seq<Animation>
    decreases n,
{
    if n <= 0 {
        Seq::empty()
    } else {
        match animation_instance_at(instances, n - 1) {
            Some(animation) => animations_of(instances, n - 1).push(animation),
            None => animations_of(instances, n - 1),
        }
    }
}

/// Reads the asset id that the first of a list of candidate texts names.
pub fn read_first_id(found: &Vec<String>) -> (id: Option<u64>)
    ensures
        id == first_id(texts(found@)),
{
    if found.len() > 0 {
        parse_id(found[0].as_str())
    } else {
        None
    }
}

/// Reads the asset id that a content id names.
pub fn asset_id_of_content(content_id: &str) -> (id: Option<u64>)
    ensures
        id == content_asset_id(content_id@),
{
    match find_all(NUMBER_PATTERN, content_id) {
        Some(found) => read_first_id(&found),
        None => None,
    }
}

impl StudioParser {
    /// A place file with the given instances and no credential.
    pub fn from_rbxl(instances: Vec<Instance>) -> (parser: StudioParser)
        ensures
            parser.roblosecurity is None,
            parser.instances == instances,
    {
        StudioParser { roblosecurity: None, instances }
    }

    /// A builder for a place file with a credential.
    pub fn builder() -> (builder: StudioParserBuilder)
        ensures
            builder.path() is None,
            builder.credential() is None,
    {
        StudioParserBuilder::new()
    }

    /// The uploader that acts with the credential of this place file.
    /// Fails exactly when no credential is set.
    pub fn animation_uploader(&self) -> (uploader: Result<AnimationUploader, ConfigError>)
        ensures
            match uploader {
                Ok(u) => self.roblosecurity == Some(u.roblosecurity),
                Err(e) => self.roblosecurity is None && e == ConfigError::MissingCredential,
            },
    {
        match &self.roblosecurity {
            Some(cookie) => Ok(AnimationUploader::new(cookie.clone())),
            None => Err(ConfigError::MissingCredential),
        }
    }

    /// Starts the resolution of `asset_ids` with the credential of this
    /// place file. Fails exactly when no credential is set.
    pub fn fetch_animation_assets(&self, asset_ids: Vec<u64>) -> (r: Result<
        (Resolver, Option<ResolverCommand>),
        ConfigError,
    >)
        ensures
            match r {
                Ok(started) => self.roblosecurity is Some && started.0.wf() && started.0@
                    == ResolverModel::start(asset_ids@).0 && commands_agree(
                    started.1,
                    ResolverModel::start(asset_ids@).1,
                ),
                Err(e) => self.roblosecurity is None && e == ConfigError::MissingCredential,
            },
    {
        match self.animation_uploader() {
            Ok(uploader) => Ok(uploader.fetch_animation_assets(asset_ids)),
            Err(e) => Err(e),
        }
    }

    /// The scripts of the place file: every instance of a script class
    /// that has a source, in the order of the instances.
    pub fn all_scripts(&self) -> (scripts: Vec<Script>)
        ensures
            scripts@ == scripts_of(self.instances@, self.instances@.len() as int),
    {
        let mut scripts: Vec<Script> = Vec::new();
        let mut i: usize = 0;
        while i < self.instances.len()
            invariant
                i <= self.instances.len(),
                scripts@ == scripts_of(self.instances@, i as int),
            decreases self.instances.len() - i,
        {
            let script_type = ScriptType::from_class_name(self.instances[i].class.as_str());
            if script_type.is_known() {
                proof {
                    crate::script::lemma_script_classes_differ();
                }
                match &self.instances[i].source {
                    Some(source) => {
                        scripts.push(Script { instance: i, source: source.clone(), script_type });
                    },
                    None => {},
                }
            }
            i = i + 1;
        }
        scripts
    }

    /// The asset ids that the scripts of the place file mention, each
    /// once, in the order of first mention.
    pub fn script_asset_ids(&self) -> (ids: Vec<u64>)
        ensures
            ids@ == ids_of_scripts(scripts_of(self.instances@, self.instances@.len() as int)),
    {
        let scripts = self.all_scripts();
        let mut ids: Vec<u64> = Vec::new();
        let mut i: usize = 0;
        proof {
            assert(scripts@.take(0) =~= Seq::<Script>::empty());
        }
        while i < scripts.len()
            invariant
                i <= scripts.len(),
                ids@ == ids_of_scripts(scripts@.take(i as int)),
            decreases scripts.len() - i,
        {
            proof {
                assert(scripts@.take(i + 1).drop_last() =~= scripts@.take(i as int));
                assert(scripts@.take(i + 1).last() == scripts@[i as int]);
            }
            ids_in_source(&mut ids, scripts[i].source.as_str());
            i = i + 1;
        }
        proof {
            assert(scripts@.take(scripts@.len() as int) =~= scripts@);
        }
        ids
    }

    /// The asset ids that the animation instances of the place file refer
    /// to, in the order of the instances.
    pub fn workspace_asset_ids(&self) -> (ids: Vec<u64>)
        ensures
            ids@ == animation_ids_of(self.instances@, self.instances@.len() as int),
    {
        let mut ids: Vec<u64> = Vec::new();
        let mut i: usize = 0;
        while i < self.instances.len()
            invariant
                i <= self.instances.len(),
                ids@ == animation_ids_of(self.instances@, i as int),
            decreases self.instances.len() - i,
        {
            if same_text(self.instances[i].class.as_str(), ANIMATION_CLASS) {
                match &self.instances[i].animation_id {
                    Some(content_id) => match asset_id_of_content(content_id.as_str()) {
                        Some(id) => {
                            ids.push(id);
                        },
                        None => {},
                    },
                    None => {},
                }
            }
            i = i + 1;
        }
        ids
    }

    /// The animation instances of the place file that refer to something:
    /// every instance of the animation class with a content id that is not
    /// empty, in the order of the instances.
    pub fn workspace_animation_instances(&self) -> (animations: Vec<Animation>)
        ensures
            animations@ == animations_of(self.instances@, self.instances@.len() as int),
    {
        let mut animations: Vec<Animation> = Vec::new();
        let mut i: usize = 0;
        while i < self.instances.len()
            invariant
                i <= self.instances.len(),
                animations@ == animations_of(self.instances@, i as int),
            decreases self.instances.len() - i,
        {
            if same_text(self.instances[i].class.as_str(), ANIMATION_CLASS) {
                match &self.instances[i].animation_id {
                    Some(content_id) => {
                        if !content_id.as_str().is_empty() {
                            animations.push(Animation::new(i, content_id.clone()));
                        }
                    },
                    None => {},
                }
            }
            i = i + 1;
        }
        animations
    }

    /// Starts the resolution of the asset ids that one script mentions.
    ///
    /// A script that mentions no asset id needs no request and so no
    /// credential: the resolver is done at once. Otherwise the call fails
    /// exactly when no credential is set.
    pub fn animations_in_script(&self, script: &Script) -> (r: Result<
        (Resolver, Option<ResolverCommand>),
        ConfigError,
    >)
        ensures
            r is Ok <==> ids_in_script(*script).len() == 0 || self.roblosecurity is Some,
            match r {
                Ok(started) => started.0.wf() && started.0@ == ResolverModel::start(
                    ids_in_script(*script),
                ).0 && commands_agree(started.1, ResolverModel::start(ids_in_script(*script)).1),
                Err(e) => e == ConfigError::MissingCredential,
            },
    {
        let mut ids: Vec<u64> = Vec::new();
        ids_in_source(&mut ids, script.source.as_str());
        if ids.len() == 0 {
            Ok(Resolver::new(ids))
        } else {
            self.fetch_animation_assets(ids)
        }
    }

    /// Rewrites the asset ids in the source of every script: each run of
    /// five or more digits that is a key of the mapping is replaced by the
    /// id that the mapping holds for it. Nothing else changes.
    pub fn update_script_animations(&mut self, mapping: &IdMapping)
        requires
            mapping.wf(),
        ensures
            final(self).roblosecurity == old(self).roblosecurity,
            final(self).instances@.len() == old(self).instances@.len(),
            forall|i: int|
                0 <= i < old(self).instances@.len() ==> {
                    let before = old(self).instances@[i];
                    let after = #[trigger] final(self).instances@[i];
                    &&& after.class == before.class
                    &&& after.animation_id == before.animation_id
                    &&& text_of(after.source) == patched_source(before, mapping@)
                },
    {
        let mut i: usize = 0;
        while i < self.instances.len()
            invariant
                i <= self.instances.len(),
                mapping.wf(),
                self.roblosecurity == old(self).roblosecurity,
                self.instances@.len() == old(self).instances@.len(),
                forall|k: int| i <= k < self.instances@.len() ==> self.instances@[k] == old(
                    self,
                ).instances@[k],
                forall|k: int|
                    0 <= k < i ==> {
                        let before = old(self).instances@[k];
                        let after = #[trigger] self.instances@[k];
                        &&& after.class == before.class
                        &&& after.animation_id == before.animation_id
                        &&& text_of(after.source) == patched_source(before, mapping@)
                    },
            decreases self.instances.len() - i,
        {
            let script_type = ScriptType::from_class_name(self.instances[i].class.as_str());
            if script_type.is_known() {
                let rewritten: Option<String> = match &self.instances[i].source {
                    Some(source) => Some(patch_text(source.as_str(), mapping, SCRIPT_ID_DIGITS)),
                    None => None,
                };
                let updated = Instance {
                    class: self.instances[i].class.clone(),
                    source: rewritten,
                    animation_id: clone_text(&self.instances[i].animation_id),
                };
                self.instances.set(i, updated);
            }
            i = i + 1;
        }
    }

    /// Rewrites the asset id in the content id of every animation
    /// instance: each run of digits that is a key of the mapping is
    /// replaced by the id that the mapping holds for it. Nothing else
    /// changes.
    pub fn update_game_animations(&mut self, mapping: &IdMapping)
        requires
            mapping.wf(),
        ensures
            final(self).roblosecurity == old(self).roblosecurity,
            final(self).instances@.len() == old(self).instances@.len(),
            forall|i: int|
                0 <= i < old(self).instances@.len() ==> {
                    let before = old(self).instances@[i];
                    let after = #[trigger] final(self).instances@[i];
                    &&& after.class == before.class
                    &&& after.source == before.source
                    &&& text_of(after.animation_id) == patched_content(before, mapping@)
                },
    {
        let mut i: usize = 0;
        while i < self.instances.len()
            invariant
                i <= self.instances.len(),
                mapping.wf(),
                self.roblosecurity == old(self).roblosecurity,
                self.instances@.len() == old(self).instances@.len(),
                forall|k: int| i <= k < self.instances@.len() ==> self.instances@[k] == old(
                    self,
                ).instances@[k],
                forall|k: int|
                    0 <= k < i ==> {
                        let before = old(self).instances@[k];
                        let after = #[trigger] self.instances@[k];
                        &&& after.class == before.class
                        &&& after.source == before.source
                        &&& text_of(after.animation_id) == patched_content(before, mapping@)
                    },
            decreases self.instances.len() - i,
        {
            if same_text(self.instances[i].class.as_str(), ANIMATION_CLASS) {
                let rewritten: Option<String> = match &self.instances[i].animation_id {
                    Some(content_id) => Some(
                        patch_text(content_id.as_str(), mapping, CONTENT_ID_DIGITS),
                    ),
                    None => None,
                };
                let updated = Instance {
                    class: self.instances[i].class.clone(),
                    source: clone_text(&self.instances[i].source),
                    animation_id: rewritten,
                };
                self.instances.set(i, updated);
            }
            i = i + 1;
        }
    }

    /// Starts the resolution of the asset ids that the scripts of the
    /// place file mention. Fails exactly when no credential is set.
    pub fn all_animations_in_scripts(&self) -> (r: Result<
        (Resolver, Option<ResolverCommand>),
        ConfigError,
    >)
        ensures
            match r {
                Ok(started) => self.roblosecurity is Some && started.0.wf() && started.0@
                    == ResolverModel::start(
                    ids_of_scripts(scripts_of(self.instances@, self.instances@.len() as int)),
                ).0 && commands_agree(
                    started.1,
                    ResolverModel::start(
                        ids_of_scripts(scripts_of(self.instances@, self.instances@.len() as int)),
                    ).1,
                ),
                Err(e) => self.roblosecurity is None && e == ConfigError::MissingCredential,
            },
    {
        let ids = self.script_asset_ids();
        self.fetch_animation_assets(ids)
    }

    /// Starts the resolution of the asset ids that the animation instances
    /// of the place file refer to. Fails exactly when no credential is set.
    pub fn workspace_animations(&self) -> (r: Result<
        (Resolver, Option<ResolverCommand>),
        ConfigError,
    >)
        ensures
            match r {
                Ok(started) => self.roblosecurity is Some && started.0.wf() && started.0@
                    == ResolverModel::start(
                    animation_ids_of(self.instances@, self.instances@.len() as int),
                ).0 && commands_agree(
                    started.1,
                    ResolverModel::start(
                        animation_ids_of(self.instances@, self.instances@.len() as int),
                    ).1,
                ),
                Err(e) => self.roblosecurity is None && e == ConfigError::MissingCredential,
            },
    {
        let ids = self.workspace_asset_ids();
        self.fetch_animation_assets(ids)
    }
}

/// Collects what a place file is built from: the path of the file and the
/// credential.
#[derive(Debug)]
pub struct StudioParserBuilder {
    file_path: Option<String>,
    roblosecurity: Option<String>,
}

impl StudioParserBuilder {
    /// The file path that is set, if any.
    pub closed spec fn path(&self) -> Option<Seq<char>> {
        match self.file_path {
            Some(p) => Some(p@),
            None => None,
        }
    }

    /// The credential that is set, if any.
    pub closed spec fn credential(&self) -> Option<Seq<char>> {
        match self.roblosecurity {
            Some(c) => Some(c@),
            None => None,
        }
    }

    /// A builder with nothing set.
    pub fn new() -> (builder: Self)
        ensures
            builder.path() is None,
            builder.credential() is None,
    {
        Self { file_path: None, roblosecurity: None }
    }

    /// Sets the path of the place file.
    pub fn file_path(self, path: &str) -> (builder: Self)
        ensures
            builder.path() == Some(path@),
            builder.credential() == self.credential(),
    {
        Self { file_path: Some(path.to_owned()), roblosecurity: self.roblosecurity }
    }

    /// Sets the credential.
    pub fn roblosecurity(self, roblosecurity: &str) -> (builder: Self)
        ensures
            builder.credential() == Some(roblosecurity@),
            builder.path() == self.path(),
    {
        Self { file_path: self.file_path, roblosecurity: Some(roblosecurity.to_owned()) }
    }

    /// The path of the file to read. Fails exactly when none is set.
    pub fn source_path(&self) -> (path: Result<&String, ConfigError>)
        ensures
            match path {
                Ok(p) => self.path() == Some(p@),
                Err(e) => self.path() is None && e == ConfigError::MissingFilePath,
            },
    {
        match &self.file_path {
            Some(p) => Ok(p),
            None => Err(ConfigError::MissingFilePath),
        }
    }

    /// Builds the place file from the instances that were read from the
    /// file at the path. Fails exactly when no path is set.
    pub fn build(self, instances: Vec<Instance>) -> (parser: Result<StudioParser, ConfigError>)
        ensures
            match parser {
                Ok(p) => self.path() is Some && p.instances == instances && (match p.roblosecurity {
                    Some(c) => self.credential() == Some(c@),
                    None => self.credential() is None,
                }),
                Err(e) => self.path() is None && e == ConfigError::MissingFilePath,
            },
    {
        match self.file_path {
            Some(_) => Ok(StudioParser { roblosecurity: self.roblosecurity, instances }),
            None => Err(ConfigError::MissingFilePath),
        }
    }
}

} // verus!
