//! File handles that a platform hands over, known by tokens that never leave the process.

use crate::encoding::{uuid_string, uuid_text};
use crate::paths::{is_absolute, is_absolute_path, PathStyle};
use crate::protocol::{contains_separator, has_separator};
use crate::registry::Registry;
use crate::text::{
    chars_of, decimal, decimal_text, is_control, is_control_char, joined, same_text, starts_with,
    starts_with_text, trim, trimmed,
};
use vstd::prelude::*;
use vstd::utf8::encode_utf8;

verus! {

/// A file that the platform handed over, with the name to show for it.
#[derive(Debug)]
pub struct RegisteredSource<T> {
    pub handle: T,
    pub display_name: String,
}

impl<T> RegisteredSource<T> {
    pub fn display_name(&self) -> (name: &str)
        ensures
            name@ == self.display_name@,
    {
        self.display_name.as_str()
    }
}

/// The path at which a file descriptor of this process can be opened.
pub fn descriptor_io_path(descriptor: u32) -> (path: String)
    ensures
        path@ == "/proc/self/fd/"@ + decimal_text(descriptor as nat),
{
    joined("/proc/self/fd/", decimal(descriptor as u64).as_str())
}

/// Whether any character of a text is a control character.
pub open spec fn has_control(text: Seq<char>) -> bool {
    exists|i: int| 0 <= i < text.len() && is_control_char(#[trigger] text[i])
}

/// Whether any character of a text is a control character.
pub fn contains_control(text: &str) -> (found: bool)
    ensures
        found == has_control(text@),
{
    let chars = chars_of(text);
    let mut index: usize = 0;
    while index < chars.len()
        invariant
            index <= chars.len(),
            chars@ == text@,
            forall|i: int| 0 <= i < index ==> !is_control_char(#[trigger] text@[i]),
        decreases chars.len() - index,
    {
        if is_control(chars[index]) {
            return true;
        }
        index += 1;
    }
    false
}

/// Whether a text can be shown as the name of a file: not empty, not too long, not a path and
/// without control characters.
pub open spec fn valid_display_name(name: Seq<char>) -> bool {
    &&& 0 < encode_utf8(name).len() <= 255
    &&& name != "."@
    &&& name != ".."@
    &&& !has_separator(name)
    &&& !has_control(name)
}

/// The name to show for a file, without white space around it.
pub fn validate_display_name(value: String) -> (result: Result<String, String>)
    ensures
        match result {
            Ok(name) => name@ == trimmed(value@) && valid_display_name(name@),
            Err(error) => !valid_display_name(trimmed(value@)) && error@
                == "platform-source-display-name-invalid"@,
        },
{
    let name: String = trim(value.as_str());
    let length: usize = name.as_str().as_bytes().len();
    if length == 0 || length > 255 || same_text(name.as_str(), ".") || same_text(
        name.as_str(),
        "..",
    ) || contains_separator(name.as_str()) || contains_control(name.as_str()) {
        return Err("platform-source-display-name-invalid".to_owned());
    }
    Ok(name)
}

/// The files that the platform handed over and has not taken back.
pub struct SourceRegistry<T> {
    sources: Registry<String, RegisteredSource<T>>,
}

impl<T> View for SourceRegistry<T> {
    type V = Map<Seq<char>, RegisteredSource<T>>;

    closed spec fn view(&self) -> Map<Seq<char>, RegisteredSource<T>> {
        self.sources@
    }
}

impl<T> SourceRegistry<T> {
    pub closed spec fn wf(self) -> bool {
        self.sources.wf()
    }

    pub fn new() -> (registry: Self)
        ensures
            registry.wf(),
            registry@ == Map::<Seq<char>, RegisteredSource<T>>::empty(),
    {
        SourceRegistry { sources: Registry::new() }
    }
}

/// Checks that a descriptor is one that can be taken over.
pub fn check_source_descriptor(descriptor: i32) -> (result: Result<(), String>)
    ensures
        match result {
            Ok(()) => descriptor >= 0,
            Err(error) => descriptor < 0 && error@ == "platform-source-descriptor-invalid"@,
        },
{
    if descriptor < 0 {
        return Err("platform-source-descriptor-invalid".to_owned());
    }
    Ok(())
}

/// Why a handle is not kept, if it is not: the name cannot be shown, or it is no file.
pub open spec fn source_refusal(display_name: Seq<char>, is_file: bool) -> Option<Seq<char>> {
    if !valid_display_name(trimmed(display_name)) {
        Some("platform-source-display-name-invalid"@)
    } else if !is_file {
        Some("platform-source-descriptor-unavailable"@)
    } else {
        None
    }
}

/// Takes over a handle and keeps it under a token made of `id`, with the name to show for it. A
/// handle that is refused is given up here.
pub fn register_owned_source_descriptor<T>(
    registry: &mut SourceRegistry<T>,
    id: &[u8; 16],
    handle: T,
    display_name: String,
    is_file: bool,
) -> (result: Result<String, String>)
    requires
        old(registry).wf(),
    ensures
        final(registry).wf(),
        match result {
            Ok(token) => {
                &&& source_refusal(display_name@, is_file) is None
                &&& token@ == "android-fd:"@ + uuid_text(id@)
                &&& final(registry)@[token@].handle == handle
                &&& final(registry)@[token@].display_name@ == trimmed(display_name@)
                &&& final(registry)@ == old(registry)@.insert(token@, final(registry)@[token@])
            },
            Err(error) => {
                &&& source_refusal(display_name@, is_file) == Some(error@)
                &&& final(registry)@ == old(registry)@
            },
        },
{
    let display_name: String = match validate_display_name(display_name) {
        Ok(name) => name,
        Err(error) => {
            return Err(error);
        },
    };
    if !is_file {
        return Err("platform-source-descriptor-unavailable".to_owned());
    }
    let token: String = joined("android-fd:", uuid_string(id).as_str());
    let key: String = token.clone();
    let ghost before = registry@;
    let _ = registry.sources.remove(&token);
    registry.sources.insert(key, RegisteredSource { handle, display_name });
    assert(registry@ =~= before.insert(token@, RegisteredSource { handle, display_name }));
    Ok(token)
}

/// Whether a text has the form of a token.
pub open spec fn is_token(value: Seq<char>) -> bool {
    starts_with_text(value, "android-fd:"@)
}

/// The handle that a token stands for.
pub fn resolve_registered_source<'a, T>(registry: &'a SourceRegistry<T>, token: &String) -> (result:
    Result<&'a RegisteredSource<T>, String>)
    requires
        registry.wf(),
    ensures
        match result {
            Ok(source) => is_token(token@) && registry@.contains_key(token@) && *source
                == registry@[token@],
            Err(error) => if !is_token(token@) {
                error@ == "platform-source-token-invalid"@
            } else {
                !registry@.contains_key(token@) && error@
                    == "platform-source-descriptor-unavailable"@
            },
        },
{
    if !starts_with(token.as_str(), "android-fd:") {
        return Err("platform-source-token-invalid".to_owned());
    }
    match registry.sources.get(token) {
        Some(source) => Ok(source),
        None => Err("platform-source-descriptor-unavailable".to_owned()),
    }
}

/// Gives up the handle that a token stands for, and says whether there was one.
pub fn release_source_descriptor<T>(registry: &mut SourceRegistry<T>, token: &String) -> (released:
    bool)
    requires
        old(registry).wf(),
    ensures
        final(registry).wf(),
        released == old(registry)@.contains_key(token@),
        final(registry)@ == old(registry)@.remove(token@),
{
    let ghost before = registry@;
    let removed = registry.sources.remove(token);
    assert(registry@ =~= before.remove(token@));
    removed.is_some()
}

pub fn is_registered_source_token(value: &str) -> (result: bool)
    ensures
        result == is_token(value@),
{
    starts_with(value, "android-fd:")
}

/// Checks the directory for the state of the application, before it is made.
pub fn check_state_root(style: PathStyle, path: &str) -> (result: Result<(), String>)
    ensures
        match result {
            Ok(()) => is_absolute_path(style, path@),
            Err(error) => !is_absolute_path(style, path@) && error@
                == "platform-state-root-invalid"@,
        },
{
    if !is_absolute(style, path) {
        return Err("platform-state-root-invalid".to_owned());
    }
    Ok(())
}

/// Chooses the directory for the state of the application, once and for all: `canonical` is
/// the directory that was asked for, where it could be made. The answer is whether the choice
/// is new.
pub fn configure_state_root(current: &mut Option<String>, canonical: Option<String>) -> (result:
    Result<bool, String>)
    ensures
        match canonical {
            None => {
                &&& result matches Err(error) && error@ == "platform-state-root-unavailable"@
                &&& *final(current) == *old(current)
            },
            Some(root) => match *old(current) {
                None => result == Ok::<bool, String>(true) && *final(current) == Some(root),
                Some(chosen) => {
                    &&& *final(current) == *old(current)
                    &&& if chosen@ == root@ {
                        result == Ok::<bool, String>(false)
                    } else {
                        result matches Err(error) && error@
                            == "platform-state-root-already-configured"@
                    }
                },
            },
        },
{
    let root: String = match canonical {
        Some(root) => root,
        None => return Err("platform-state-root-unavailable".to_owned()),
    };
    match current {
        Some(chosen) => {
            if same_text(chosen.as_str(), root.as_str()) {
                return Ok(false);
            }
            return Err("platform-state-root-already-configured".to_owned());
        },
        None => {},
    }
    *current = Some(root);
    Ok(true)
}

/// The directory for the state of the application: the chosen one, else the platform's own.
pub fn state_root(current: &Option<String>, data_local_dir: Option<String>) -> (result: Result<
    String,
    String,
>)
    ensures
        match result {
            Ok(root) => match *current {
                Some(chosen) => root@ == chosen@,
                None => data_local_dir == Some(root),
            },
            Err(error) => *current is None && data_local_dir is None && error@
                == "platform-state-root-unavailable"@,
        },
{
    match current {
        Some(chosen) => Ok(chosen.clone()),
        None => match data_local_dir {
            Some(root) => Ok(root),
            None => Err("platform-state-root-unavailable".to_owned()),
        },
    }
}

/// The token of a handle resolves to it until the handle is released.
pub proof fn law_registered_sources_resolve<T>(
    sources: Map<Seq<char>, RegisteredSource<T>>,
    id: [u8; 16],
    source: RegisteredSource<T>,
)
    ensures
        ({
            let token = "android-fd:"@ + uuid_text(id@);
            &&& is_token(token)
            &&& sources.insert(token, source)[token] == source
            &&& !sources.insert(token, source).remove(token).contains_key(token)
        }),
{
    let prefix = "android-fd:"@;
    let token = prefix + uuid_text(id@);
    assert(token.subrange(0, prefix.len() as int) =~= prefix);
}

} // verus!
