//! Provider ids: which are valid, how they are shown, and what the configuration names.

use crate::text;
use crate::projection;
use crate::model;
use crate::model::Model;
use crate::ordered::OrderedSet;
use crate::projection::SourceProvider;
use crate::text::{is_control, join2, join3, join5, same, trim};
use vstd::prelude::*;

verus! {

/// The UTF-8 form of a text.
pub open spec fn utf8(s: Seq<char>) -> Seq<u8> {
    vstd::utf8::encode_utf8(s)
}

/// The number of bytes of a text in UTF-8.
pub fn utf8_len(s: &str) -> (r: usize)
    ensures
        r == utf8(s@).len(),
{
    s.as_bytes().len()
}

/// An id is safe: not empty, at most 256 bytes, without white space at its ends and without
/// control characters.
pub open spec fn safe_id(id: Seq<char>) -> bool {
    &&& id.len() > 0
    &&& utf8(id).len() <= 256
    &&& text::trimmed(id) == id
    &&& forall|i: int| 0 <= i < id.len() ==> !text::control(#[trigger] id[i])
}

/// Whether an id is safe.
pub fn provider_id_is_safe(value: &str) -> (r: bool)
    ensures
        r == safe_id(value@),
{
    if value.is_empty() || utf8_len(value) > 256 {
        return false;
    }
    let inner = trim(value);
    if !same(inner.as_str(), value) {
        return false;
    }
    for c in it: value.chars()
        invariant
            it.seq() == value@,
            forall|i: int| 0 <= i < it.index() ==> !text::control(#[trigger] value@[i]),
    {
        if is_control(c) {
            assert(text::control(value@[it.index()]));
            return false;
        }
    }
    true
}

/// The id that a state row or a rollout gives for a provider.
pub open spec fn normalized_id(value: Seq<char>) -> Seq<char> {
    if value == "OpenAI"@ {
        "openai"@
    } else {
        value
    }
}

/// Maps the display name of the built-in provider to its id.
pub fn normalize_provider(value: &str) -> (r: String)
    ensures
        r@ == normalized_id(value@),
{
    if same(value, "OpenAI") {
        "openai".to_owned()
    } else {
        value.to_owned()
    }
}

/// The provider that a safe id names.
pub fn source_provider(value: &str) -> (r: Option<SourceProvider>)
    ensures
        r.deep_view() == (if safe_id(value@) {
            Some(projection::provider_of(value@))
        } else {
            None
        }),
{
    if !provider_id_is_safe(value) {
        return None;
    }
    Some(SourceProvider::from_id(value.to_owned()))
}

/// An id if it is safe, else nothing.
pub open spec fn canonical_id(id: Seq<char>) -> Seq<char> {
    if safe_id(id) {
        id
    } else {
        Seq::empty()
    }
}

/// The id as it is if it is safe, else an empty text.
pub fn canonical_provider(id: &str) -> (r: String)
    ensures
        r@ == canonical_id(id@),
{
    match source_provider(id) {
        Some(provider) => provider.as_str().to_owned(),
        None => String::new(),
    }
}

/// Accepts a safe id exactly as it is.
pub fn validate_provider(provider: &str) -> (r: Result<String, String>)
    ensures
        match r {
            Ok(id) => safe_id(provider@) && id@ == provider@,
            Err(message) => !safe_id(provider@) && message@ == "invalid provider id: "@ + provider@,
        },
{
    match source_provider(provider) {
        Some(found) => Ok(found.as_str().to_owned()),
        None => Err(join2("invalid provider id: ", provider)),
    }
}

/// The name under which a provider is shown.
pub open spec fn shown_name(id: Seq<char>) -> Seq<char> {
    if id == "openai"@ {
        "OpenAI"@
    } else if id == "codexpilot"@ {
        "CodexPilot"@
    } else if id == "custom"@ {
        "Custom"@
    } else {
        id
    }
}

/// The name under which a provider is shown.
pub fn provider_name(id: &str) -> (r: String)
    ensures
        r@ == shown_name(id@),
{
    if same(id, "openai") {
        "OpenAI".to_owned()
    } else if same(id, "codexpilot") {
        "CodexPilot".to_owned()
    } else if same(id, "custom") {
        "Custom".to_owned()
    } else {
        id.to_owned()
    }
}

/// The hash of bytes in base 31, in the width of the machine.
pub open spec fn color_hash(bytes: Seq<u8>) -> int
    decreases bytes.len(),
{
    if bytes.len() == 0 {
        0
    } else {
        (color_hash(bytes.drop_last()) * 31 + bytes.last()) % (usize::MAX + 1)
    }
}

proof fn lemma_wrapped_sum(product: int, byte: int, modulus: int)
    requires
        modulus > 0,
    ensures
        (product % modulus + byte) % modulus == (product + byte) % modulus,
{
    vstd::arithmetic::div_mod::lemma_add_mod_noop(product, byte, modulus);
    vstd::arithmetic::div_mod::lemma_add_mod_noop(product % modulus, byte, modulus);
    vstd::arithmetic::div_mod::lemma_mod_twice(product, modulus);
}

/// The color of a provider that has none of its own.
pub open spec fn hashed_color(hash: int) -> Seq<char> {
    let slot = hash % 6;
    if slot == 0 {
        "#3f7c85"@
    } else if slot == 1 {
        "#6d6b9a"@
    } else if slot == 2 {
        "#8a6748"@
    } else if slot == 3 {
        "#587a52"@
    } else if slot == 4 {
        "#8a5c72"@
    } else {
        "#52708c"@
    }
}

/// The color in which a provider is shown.
pub open spec fn shown_color(id: Seq<char>) -> Seq<char> {
    if id == "openai"@ {
        "#4779a7"@
    } else if id == "codexpilot"@ {
        "#b17842"@
    } else if id == "custom"@ {
        "#2d7b6f"@
    } else {
        hashed_color(color_hash(utf8(id)))
    }
}

/// The color in which a provider is shown.
pub fn provider_color(id: &str) -> (r: &'static str)
    ensures
        r@ == shown_color(id@),
{
    if same(id, "openai") {
        return "#4779a7";
    }
    if same(id, "codexpilot") {
        return "#b17842";
    }
    if same(id, "custom") {
        return "#2d7b6f";
    }
    let bytes = id.as_bytes();
    let mut hash: usize = 0;
    let mut i: usize = 0;
    while i < bytes.len()
        invariant
            i <= bytes@.len(),
            hash == color_hash(bytes@.take(i as int)),
        decreases bytes@.len() - i,
    {
        let ghost before = hash;
        hash = hash.wrapping_mul(31).wrapping_add(bytes[i] as usize);
        proof {
            assert(bytes@.take(i + 1).drop_last() =~= bytes@.take(i as int));
            lemma_wrapped_sum(before * 31, bytes@[i as int] as int, usize::MAX + 1);
        }
        i += 1;
    }
    assert(bytes@.take(i as int) =~= bytes@);
    let slot: usize = hash % 6;
    if slot == 0 {
        "#3f7c85"
    } else if slot == 1 {
        "#6d6b9a"
    } else if slot == 2 {
        "#8a6748"
    } else if slot == 3 {
        "#587a52"
    } else if slot == 4 {
        "#8a5c72"
    } else {
        "#52708c"
    }
}

/// The text that a TOML document holds under a top-level key.
pub uninterp spec fn toml_text(document: Seq<char>, key: Seq<char>) -> Option<Seq<char>>;

/// Reads the text under a top-level key of a TOML document with `toml::Value`'s `from_str`, `get`
/// and `as_str`. The result depends on the document and the key alone; there is none where the
/// document does not parse or the key does not hold a text.
#[verifier::external_body]
fn read_toml_text(document: &str, key: &str) -> (r: Option<String>)
    ensures
        r.deep_view() == toml_text(document@, key@),
{
    let value = document.parse::<toml::Value>().ok()?;
    value.get(key).and_then(toml::Value::as_str).map(str::to_owned)
}

/// The keys of the table that a TOML document holds under a top-level key.
pub uninterp spec fn toml_table_keys(document: Seq<char>, key: Seq<char>) -> Seq<Seq<char>>;

/// Lists the keys of a top-level table of a TOML document with `toml::Value`'s `from_str`, `get`,
/// `as_table` and `keys`. The result depends on the document and the key alone; it is empty where
/// the document does not parse or the key does not hold a table.
#[verifier::external_body]
fn read_toml_table_keys(document: &str, key: &str) -> (r: Vec<String>)
    ensures
        r.deep_view() == toml_table_keys(document@, key@),
{
    let value = document.parse::<toml::Value>().ok();
    let table = value.as_ref().and_then(|value| value.get(key)).and_then(toml::Value::as_table);
    table.map(|table| table.keys().cloned().collect()).unwrap_or_default()
}

/// A configured id, if it is safe.
pub open spec fn safe_or_none(value: Option<Seq<char>>) -> Option<Seq<char>> {
    match value {
        Some(id) => if safe_id(id) {
            Some(id)
        } else {
            None
        },
        None => None,
    }
}

/// The configured id, if it is safe.
pub fn safe_configured(value: Option<String>) -> (r: Option<String>)
    ensures
        r.deep_view() == safe_or_none(value.deep_view()),
{
    match value {
        Some(id) => match validate_provider(id.as_str()) {
            Ok(id) => Some(id),
            Err(_) => None,
        },
        None => None,
    }
}

/// The provider that the configuration names as current.
pub open spec fn configured_provider(config: Option<Seq<char>>) -> Option<Seq<char>> {
    match config {
        Some(document) => safe_or_none(toml_text(document, "model_provider"@)),
        None => None,
    }
}

/// The provider that the text of the configuration file names as current, if it names a valid one.
pub fn configured_current_provider(config: &Option<String>) -> (r: Option<String>)
    ensures
        r.deep_view() == configured_provider(config.deep_view()),
{
    match config {
        Some(document) => safe_configured(read_toml_text(document.as_str(), "model_provider")),
        None => None,
    }
}

/// A provider's id, or the word for none.
pub open spec fn id_or_unknown(provider: Option<Seq<char>>) -> Seq<char> {
    match provider {
        Some(id) => id,
        None => "unknown"@,
    }
}

/// The configured provider, or the word for none.
pub fn current_provider(config: &Option<String>) -> (r: String)
    ensures
        r@ == id_or_unknown(configured_provider(config.deep_view())),
{
    match configured_current_provider(config) {
        Some(id) => id,
        None => "unknown".to_owned(),
    }
}

/// The safe ids among `ids`.
pub open spec fn safe_ids(ids: Seq<Seq<char>>) -> Set<Seq<char>> {
    Set::new(|id: Seq<char>| ids.contains(id) && safe_id(id))
}

/// The safe ids of a list.
pub fn collect_safe_ids(ids: &Vec<String>) -> (r: OrderedSet<String>)
    ensures
        r.deep_view() == safe_ids(ids.deep_view()),
{
    let ghost view = ids.deep_view();
    let mut out: OrderedSet<String> = OrderedSet::new();
    let mut i: usize = 0;
    assert(out.deep_view() =~= safe_ids(view.take(0)));
    while i < ids.len()
        invariant
            i <= ids@.len(),
            view == ids.deep_view(),
            out.deep_view() == safe_ids(view.take(i as int)),
        decreases ids@.len() - i,
    {
        let ghost before = out.deep_view();
        let ghost from = view.take(i as int);
        let ghost to = view.take(i + 1);
        proof {
            assert(to =~= from.push(view[i as int]));
            assert(view[i as int] == ids@[i as int]@);
            assert forall|id: Seq<char>| #[trigger] to.contains(id) <==> (from.contains(id) || id
                == view[i as int]) by {
                if from.contains(id) {
                    let j = choose|j: int| 0 <= j < from.len() && from[j] == id;
                    assert(to[j] == id);
                }
                if id == view[i as int] {
                    assert(to[i as int] == id);
                }
                if to.contains(id) && id != view[i as int] {
                    let j = choose|j: int| 0 <= j < to.len() && to[j] == id;
                    assert(from[j] == id);
                }
            }
        }
        match validate_provider(ids[i].as_str()) {
            Ok(id) => {
                out.insert(id);
            },
            Err(_) => {},
        }
        assert(out.deep_view() =~= safe_ids(to));
        i += 1;
    }
    assert(view.take(i as int) =~= view);
    out
}

/// The providers that the configuration lists.
pub open spec fn configured_ids(config: Option<Seq<char>>) -> Set<Seq<char>> {
    match config {
        Some(document) => safe_ids(toml_table_keys(document, "model_providers"@)),
        None => Set::empty(),
    }
}

/// The valid providers that the text of the configuration file lists.
pub fn configured_providers(config: &Option<String>) -> (r: OrderedSet<String>)
    ensures
        r.deep_view() == configured_ids(config.deep_view()),
{
    match config {
        Some(document) => {
            let keys = read_toml_table_keys(document.as_str(), "model_providers");
            collect_safe_ids(&keys)
        },
        None => OrderedSet::new(),
    }
}

/// What is answered to the wish to repair towards `provider` while `current` is configured.
pub open spec fn target_check(
    current: Option<Seq<char>>,
    provider: Seq<char>,
) -> Result<Seq<char>, Seq<char>> {
    if !safe_id(provider) {
        Err("invalid provider id: "@ + provider)
    } else if current is None {
        Err("config.toml has no valid current model_provider"@)
    } else if provider != current->0 {
        Err(
            "target provider must match config.toml model_provider (current: "@ + current->0
                + ")"@,
        )
    } else {
        Ok(provider)
    }
}

/// Accepts a target only if it is the provider that the configuration names.
pub fn check_target(current: Option<String>, provider: &str) -> (r: Result<String, String>)
    ensures
        model::outcome(r) == target_check(current.deep_view(), provider@),
{
    let provider = match validate_provider(provider) {
        Ok(id) => id,
        Err(message) => {
            return Err(message);
        },
    };
    match current {
        None => Err("config.toml has no valid current model_provider".to_owned()),
        Some(current) => if provider.same_as(&current) {
            Ok(provider)
        } else {
            Err(
                join3(
                    "target provider must match config.toml model_provider (current: ",
                    current.as_str(),
                    ")",
                ),
            )
        },
    }
}

/// Accepts a target only if it is the provider that the text of the configuration file names.
pub fn validate_current_target_provider(config: &Option<String>, provider: &str) -> (r: Result<
    String,
    String,
>)
    ensures
        model::outcome(r) == target_check(configured_provider(config.deep_view()), provider@),
{
    check_target(configured_current_provider(config), provider)
}

/// What the configuration guard finds: nothing wrong, or why the repair may not go on.
pub open spec fn guard_fault(
    current: Option<Seq<char>>,
    path: Seq<char>,
    expected: Seq<char>,
) -> Option<Seq<char>> {
    match current {
        None => Some(path + " has no valid model_provider"@),
        Some(id) => if id == expected {
            None
        } else {
            Some(
                "target provider changed before repair (expected: "@ + expected + ", current: "@
                    + id + ")"@,
            )
        },
    }
}

/// Holds the guarded configuration file at `path` to the expected provider.
pub fn check_guarded_config(config: &Option<String>, path: &str, expected: &str) -> (r: Result<
    (),
    String,
>)
    ensures
        match r {
            Ok(()) => guard_fault(configured_provider(config.deep_view()), path@, expected@) is None,
            Err(message) => guard_fault(configured_provider(config.deep_view()), path@, expected@)
                == Some(message@),
        },
{
    match configured_current_provider(config) {
        None => Err(join2(path, " has no valid model_provider")),
        Some(id) => if same(id.as_str(), expected) {
            Ok(())
        } else {
            Err(
                join5(
                    "target provider changed before repair (expected: ",
                    expected,
                    ", current: ",
                    id.as_str(),
                    ")",
                ),
            )
        },
    }
}

/// Validation keeps an id exactly as it is.
pub proof fn law_canonical_id_is_exact(id: Seq<char>)
    ensures
        safe_id(id) ==> canonical_id(id) == id,
        !safe_id(id) ==> canonical_id(id).len() == 0,
        canonical_id(canonical_id(id)) == canonical_id(id),
{
    if !safe_id(id) {
        assert(!safe_id(Seq::<char>::empty()));
    }
}

/// The provider that is asked for is taken exactly where it has a safe name and is the one that the
/// configuration names; and a repair goes on exactly while it still is.
pub proof fn law_target_is_the_configured_one(
    current: Option<Seq<char>>,
    provider: Seq<char>,
    path: Seq<char>,
)
    ensures
        target_check(current, provider) is Ok <==> safe_id(provider) && current == Some(provider),
        target_check(current, provider) is Ok ==> target_check(current, provider)->Ok_0 == provider,
        guard_fault(current, path, provider) is None <==> current == Some(provider),
        safe_or_none(current) is Some <==> current is Some && safe_id(current->0),
        safe_or_none(current) is Some ==> safe_or_none(current) == current,
        current is Some ==> id_or_unknown(current) == current->0,
        current is None ==> id_or_unknown(current) == "unknown"@,
{
}

/// A safe name is not empty, has at most 256 bytes, no white space around it and no control
/// character in it; nothing else is asked of it.
pub proof fn law_safe_names(id: Seq<char>, at: int)
    ensures
        safe_id(id) ==> 0 < id.len() && utf8(id).len() <= 256 && text::trimmed(id) == id,
        safe_id(id) && 0 <= at < id.len() ==> !text::control(id[at]),
        0 <= at < id.len() && text::control(id[at]) ==> !safe_id(id),
        id.len() > 0 && utf8(id).len() <= 256 && text::trimmed(id) == id && (forall|i: int|
            0 <= i < id.len() ==> !text::control(#[trigger] id[i])) ==> safe_id(id),
        !safe_id(Seq::empty()),
{
}

/// The names that differ from their ids are those of three providers, and each has a color of its
/// own.
pub proof fn law_shown_names_and_colors(id: Seq<char>)
    ensures
        id == "openai"@ ==> shown_name(id) == "OpenAI"@ && shown_color(id) == "#4779a7"@,
        id == "codexpilot"@ ==> shown_name(id) == "CodexPilot"@ && shown_color(id) == "#b17842"@,
        id == "custom"@ ==> shown_name(id) == "Custom"@ && shown_color(id) == "#2d7b6f"@,
        id != "openai"@ && id != "codexpilot"@ && id != "custom"@ ==> shown_name(id) == id,
        normalized_id(id) == id || id == "OpenAI"@,
        id == "OpenAI"@ ==> normalized_id(id) == "openai"@,
        normalized_id(normalized_id(id)) == normalized_id(id),
{
    lemma_provider_words();
}

proof fn lemma_provider_words()
    ensures
        "OpenAI"@ != "openai"@,
        "codexpilot"@ != "openai"@,
        "custom"@ != "openai"@,
        "custom"@ != "codexpilot"@,
{
    reveal_strlit("OpenAI");
    reveal_strlit("openai");
    reveal_strlit("codexpilot");
    reveal_strlit("custom");
    assert("OpenAI"@[0] == 'O');
    assert("openai"@[0] == 'o');
    assert("codexpilot"@.len() == 10);
    assert("custom"@[0] == 'c');
}

} // verus!
