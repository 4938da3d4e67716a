//! Administration: migrations with an owner role, the repair of ownership after
//! leases, and the wrapping of secrets.

use crate::config;
use crate::config::{EnvValue, EnvView};
use crate::endpoint;
use crate::endpoint::Endpoint;
use crate::error::{rejected, Rejection};
use crate::json;
use crate::json::{JsonMember, MemberView};
use crate::protection::SecretLifecycle;
use crate::string_set::StringSet;
use crate::text;
use vstd::prelude::*;

verus! {

/// Whether a character may stand in an identifier: an ASCII letter, a digit,
/// an underscore or a hyphen.
pub open spec fn identifier_char(c: char) -> bool {
    ||| 'a' <= c && c <= 'z'
    ||| 'A' <= c && c <= 'Z'
    ||| '0' <= c && c <= '9'
    ||| c == '_'
    ||| c == '-'
}

/// A text without the characters that may not stand in an identifier.
pub open spec fn identifier_chars(s: Seq<char>) -> Seq<char> {
    s.filter(|c: char| identifier_char(c))
}

/// The identifier that is left of a text, in lower case; none where nothing is
/// left.
pub open spec fn identifier_of(s: Seq<char>) -> Option<Seq<char>> {
    let kept = identifier_chars(s);
    if kept.len() == 0 {
        None
    } else {
        Some(text::ascii_lowercase(kept))
    }
}

/// Reduce a text to an identifier in lower case.
pub fn sanitize_identifier(input: &str) -> (res: Option<String>)
    ensures
        text::optional(res) == identifier_of(input@),
{
    let chars = text::chars_of(input);
    let mut kept = String::new();
    let n: usize = chars.len();
    let mut i: usize = 0;
    assert(input@.take(0) =~= Seq::empty());
    reveal(Seq::filter);
    while i < n
        invariant
            i <= n,
            n == chars@.len(),
            chars@ == input@,
            kept@ == identifier_chars(input@.take(i as int)),
        decreases n - i,
    {
        let c = chars[i];
        reveal(Seq::filter);
        assert(input@.take(i + 1).drop_last() =~= input@.take(i as int));
        assert(input@.take(i + 1).last() == c);
        if (c >= 'a' && c <= 'z') || (c >= 'A' && c <= 'Z') || (c >= '0' && c <= '9') || c == '_'
            || c == '-' {
            kept.push(c);
        }
        i = i + 1;
    }
    assert(input@.take(n as int) =~= input@);
    if kept.as_str().is_empty() {
        None
    } else {
        Some(text::to_ascii_lowercase(kept.as_str()))
    }
}

/// A text with each double quote written twice.
pub open spec fn doubled(s: Seq<char>) -> Seq<char>
    decreases s.len(),
{
    if s.len() == 0 {
        Seq::empty()
    } else if s.last() == '"' {
        doubled(s.drop_last()).push('"').push('"')
    } else {
        doubled(s.drop_last()).push(s.last())
    }
}

/// An identifier between double quotes, with each one inside it written twice.
pub open spec fn quoted(s: Seq<char>) -> Seq<char> {
    seq!['"'] + doubled(s) + seq!['"']
}

/// Write an identifier between double quotes.
pub fn quote_identifier(input: &str) -> (res: String)
    ensures
        res@ == quoted(input@),
{
    let chars = text::chars_of(input);
    let mut inner = String::new();
    let n: usize = chars.len();
    let mut i: usize = 0;
    assert(input@.take(0) =~= Seq::empty());
    while i < n
        invariant
            i <= n,
            n == chars@.len(),
            chars@ == input@,
            inner@ == doubled(input@.take(i as int)),
        decreases n - i,
    {
        let c = chars[i];
        assert(input@.take(i + 1).drop_last() =~= input@.take(i as int));
        assert(input@.take(i + 1).last() == c);
        if c == '"' {
            inner.push('"');
            inner.push('"');
        } else {
            inner.push(c);
        }
        i = i + 1;
    }
    assert(input@.take(n as int) =~= input@);
    let res = text::concat3("\"", inner.as_str(), "\"");
    proof {
        reveal_strlit("\"");
        assert("\""@ =~= seq!['"']);
    }
    res
}

/// A text in which double quotes stand in pairs, read with one for each pair.
pub open spec fn halved(s: Seq<char>) -> Seq<char>
    decreases s.len(),
{
    if s.len() == 0 {
        Seq::empty()
    } else if s.last() == '"' && s.len() >= 2 {
        halved(s.drop_last().drop_last()).push('"')
    } else {
        halved(s.drop_last()).push(s.last())
    }
}

/// An identifier is read back from between its quotes: no two identifiers are
/// written the same, and none ends its quotes early.
pub proof fn quoted_identifiers_are_read_back(s: Seq<char>)
    ensures
        quoted(s).len() >= 2,
        quoted(s)[0] == '"',
        quoted(s).last() == '"',
        halved(quoted(s).subrange(1, quoted(s).len() - 1)) == s,
{
    lemma_halved(s);
    assert(quoted(s).subrange(1, quoted(s).len() - 1) =~= doubled(s));
}

proof fn lemma_halved(s: Seq<char>)
    ensures
        halved(doubled(s)) == s,
    decreases s.len(),
{
    if s.len() > 0 {
        let rest = s.drop_last();
        lemma_halved(rest);
        let d = doubled(s);
        if s.last() == '"' {
            assert(d.drop_last().drop_last() =~= doubled(rest));
            assert(d.last() == '"');
        } else {
            assert(d.drop_last() =~= doubled(rest));
        }
        assert(s =~= rest.push(s.last()));
    } else {
        assert(s =~= Seq::empty());
    }
}

/// The address of the database: the one that is named, or the one of the
/// environment; not blank.
pub open spec fn database_url_of(explicit: Option<Seq<char>>, env: EnvView) -> Result<
    Seq<char>,
    Seq<char>,
> {
    let url = match explicit {
        Some(url) => Some(url),
        None => env.readable(),
    };
    match url {
        Some(url) if !text::is_blank(url) => Ok(url),
        _ => Err("database URL is required via --database-url or SECURE_DB_URL"@),
    }
}

/// Choose the address of the database.
pub fn resolve_database_url(explicit_database_url: Option<&str>, env: &EnvValue) -> (res: Result<
    String,
    Rejection,
>)
    ensures
        config::answer(res) == database_url_of(text::optional_str(explicit_database_url), env@),
{
    let url = match explicit_database_url {
        Some(url) => Some(url),
        None => env.get(),
    };
    match url {
        Some(url) => if !text::blank(url) {
            Ok(url.to_owned())
        } else {
            Err(rejected("database URL is required via --database-url or SECURE_DB_URL"))
        },
        None => Err(rejected("database URL is required via --database-url or SECURE_DB_URL")),
    }
}

/// The user that an address names, trimmed; none where it is blank.
pub open spec fn role_of(endpoint: Option<endpoint::EndpointView>) -> Option<Seq<char>> {
    match endpoint {
        None => None,
        Some(endpoint) => if text::is_blank(endpoint.username) {
            None
        } else {
            Some(text::trimmed(endpoint.username))
        },
    }
}

/// The role that an address names.
pub fn owner_role_of(endpoint: Option<Endpoint>) -> (res: Option<String>)
    ensures
        text::optional(res) == role_of(endpoint::endpoint_view(endpoint)),
{
    match endpoint {
        None => None,
        Some(endpoint) => {
            let username = text::trim(endpoint.username.as_str());
            if username.is_empty() {
                None
            } else {
                Some(username.to_owned())
            }
        },
    }
}

/// The role that the address of a database names.
pub fn owner_role_from_database_url(database_url: &str) -> (res: Option<String>)
    ensures
        text::optional(res) == role_of(endpoint::url_parts(database_url@)),
{
    owner_role_of(endpoint::parse_url(database_url))
}

/// The role that owns the schema: the one that is named, or the one of the
/// address.
pub open spec fn owner_role_for(
    explicit: Option<Seq<char>>,
    endpoint: Option<endpoint::EndpointView>,
) -> Result<Seq<char>, Seq<char>> {
    match explicit {
        Some(role) => Ok(role),
        None => match role_of(endpoint) {
            Some(role) => Ok(role),
            None => Err("--owner-role is required when the database URL has no username"@),
        },
    }
}

/// The role that owns the schema: the one that is named, or the one of the
/// address.
pub fn resolve_owner_role(explicit: Option<String>, database_url: &str) -> (res: Result<
    String,
    Rejection,
>)
    ensures
        config::answer(res) == owner_role_for(
            text::optional(explicit),
            endpoint::url_parts(database_url@),
        ),
{
    match explicit {
        Some(role) => Ok(role),
        None => match owner_role_from_database_url(database_url) {
            Some(role) => Ok(role),
            None => Err(
                rejected("--owner-role is required when the database URL has no username"),
            ),
        },
    }
}

/// A setting for the environment of a migration.
#[derive(Debug)]
pub struct Setting {
    pub name: &'static str,
    pub value: String,
}

/// What settings hold.
pub open spec fn setting_views(settings: Seq<Setting>) -> Seq<(Seq<char>, Seq<char>)> {
    settings.map_values(|setting: Setting| (setting.name@, setting.value@))
}

/// A setting with a number, where there is one.
pub open spec fn number_setting(name: Seq<char>, value: Option<nat>) -> Seq<
    (Seq<char>, Seq<char>),
> {
    match value {
        Some(value) => seq![(name, text::decimal(value))],
        None => Seq::empty(),
    }
}

/// The options of a migration.
#[derive(Debug)]
pub struct MigrationOptions {
    pub pool_max: Option<u32>,
    pub pool_min: Option<u32>,
    pub connect_timeout: Option<u64>,
    pub idle_timeout: Option<u64>,
    pub application_name: Option<String>,
}

/// A number of thirty-two bits that may be absent.
pub open spec fn natural_u32(value: Option<u32>) -> Option<nat> {
    match value {
        Some(value) => Some(value as nat),
        None => None,
    }
}

/// A number of sixty-four bits that may be absent.
pub open spec fn natural_u64(value: Option<u64>) -> Option<nat> {
    match value {
        Some(value) => Some(value as nat),
        None => None,
    }
}

/// The settings that a migration runs with: a static address, allowed for this
/// run, and the options that are given.
pub open spec fn migration_settings_of(database_url: Seq<char>, options: MigrationOptions) -> Seq<
    (Seq<char>, Seq<char>),
> {
    seq![
        ("SECURE_DB_ALLOW_STATIC"@, "1"@),
        ("SECURE_DB_ALLOW_DIRECT_BOOTSTRAP"@, "1"@),
        ("SECURE_DB_CREDENTIAL_SOURCE"@, "static"@),
        ("SECURE_DB_URL"@, database_url),
    ] + number_setting("SECURE_DB_POOL_MAX"@, natural_u32(options.pool_max)) + number_setting(
        "SECURE_DB_POOL_MIN"@,
        natural_u32(options.pool_min),
    ) + number_setting("SECURE_DB_CONNECT_TIMEOUT"@, natural_u64(options.connect_timeout))
        + number_setting("SECURE_DB_IDLE_TIMEOUT"@, natural_u64(options.idle_timeout)) + (
    match text::optional(options.application_name) {
        Some(name) => seq![("SECURE_DB_APP_NAME"@, name)],
        None => Seq::empty(),
    })
}

fn push_number(settings: &mut Vec<Setting>, name: &'static str, value: Option<u64>)
    ensures
        setting_views(final(settings)@) == setting_views(old(settings)@) + number_setting(
            name@,
            natural_u64(value),
        ),
{
    let ghost before = setting_views(settings@);
    if let Some(value) = value {
        settings.push(Setting { name, value: text::to_decimal(value) });
    }
    assert(setting_views(settings@) =~= before + number_setting(name@, natural_u64(value)));
}

fn widened(value: Option<u32>) -> (res: Option<u64>)
    ensures
        natural_u64(res) == natural_u32(value),
{
    match value {
        Some(value) => Some(value as u64),
        None => None,
    }
}

/// List the settings that a migration runs with.
pub fn migration_settings(database_url: &str, options: MigrationOptions) -> (res: Vec<Setting>)
    ensures
        setting_views(res@) == migration_settings_of(database_url@, options),
{
    let mut settings: Vec<Setting> = Vec::new();
    settings.push(Setting { name: "SECURE_DB_ALLOW_STATIC", value: "1".to_owned() });
    settings.push(Setting { name: "SECURE_DB_ALLOW_DIRECT_BOOTSTRAP", value: "1".to_owned() });
    settings.push(Setting { name: "SECURE_DB_CREDENTIAL_SOURCE", value: "static".to_owned() });
    settings.push(Setting { name: "SECURE_DB_URL", value: database_url.to_owned() });
    assert(setting_views(settings@) =~= seq![
        ("SECURE_DB_ALLOW_STATIC"@, "1"@),
        ("SECURE_DB_ALLOW_DIRECT_BOOTSTRAP"@, "1"@),
        ("SECURE_DB_CREDENTIAL_SOURCE"@, "static"@),
        ("SECURE_DB_URL"@, database_url@),
    ]);
    push_number(&mut settings, "SECURE_DB_POOL_MAX", widened(options.pool_max));
    push_number(&mut settings, "SECURE_DB_POOL_MIN", widened(options.pool_min));
    push_number(&mut settings, "SECURE_DB_CONNECT_TIMEOUT", options.connect_timeout);
    push_number(&mut settings, "SECURE_DB_IDLE_TIMEOUT", options.idle_timeout);
    let ghost before = setting_views(settings@);
    if let Some(name) = options.application_name {
        settings.push(Setting { name: "SECURE_DB_APP_NAME", value: name });
    }
    assert(setting_views(settings@) =~= before + (match text::optional(options.application_name) {
        Some(name) => seq![("SECURE_DB_APP_NAME"@, name)],
        None => Seq::empty(),
    }));
    settings
}

/// The distinct identifiers of some audiences, in the order of their first
/// occurrence.
pub open spec fn audience_prefixes(audiences: Seq<Seq<char>>) -> Seq<Seq<char>>
    decreases audiences.len(),
{
    if audiences.len() == 0 {
        Seq::empty()
    } else {
        let before = audience_prefixes(audiences.drop_last());
        match identifier_of(audiences.last()) {
            None => before,
            Some(prefix) => if before.contains(prefix) {
                before
            } else {
                before.push(prefix)
            },
        }
    }
}

/// A character in a `LIKE` pattern: an underscore is escaped, as it would
/// stand for any character.
pub open spec fn escaped_char(c: char) -> Seq<char> {
    if c == '_' {
        seq!['\\', '_']
    } else {
        seq![c]
    }
}

/// A text in a `LIKE` pattern, with its underscores escaped.
pub open spec fn escaped(s: Seq<char>) -> Seq<char>
    decreases s.len(),
{
    if s.len() == 0 {
        Seq::empty()
    } else {
        escaped(s.drop_last()) + escaped_char(s.last())
    }
}

fn escape_like(input: &str) -> (res: String)
    ensures
        res@ == escaped(input@),
{
    let chars = text::chars_of(input);
    let mut pattern = String::new();
    let n: usize = chars.len();
    let mut i: usize = 0;
    assert(input@.take(0) =~= Seq::empty());
    while i < n
        invariant
            i <= n,
            n == chars@.len(),
            chars@ == input@,
            pattern@ == escaped(input@.take(i as int)),
        decreases n - i,
    {
        let c = chars[i];
        let ghost before = pattern@;
        assert(input@.take(i + 1).drop_last() =~= input@.take(i as int));
        assert(input@.take(i + 1).last() == c);
        if c == '_' {
            pattern.push('\\');
        }
        pattern.push(c);
        assert(pattern@ =~= before + escaped_char(c));
        i = i + 1;
    }
    assert(input@.take(n as int) =~= input@);
    pattern
}

/// The pattern that the roles leased for an audience match.
pub open spec fn role_pattern(prefix: Seq<char>) -> Seq<char> {
    escaped(prefix) + "\\_%"@
}

/// Whether a name is `LIKE` a pattern with the backslash as its escape: `%`
/// stands for any text, `_` for any character, and an escaped character for
/// itself.
pub open spec fn like(pattern: Seq<char>, name: Seq<char>) -> bool
    decreases pattern.len(), name.len(),
{
    if pattern.len() == 0 {
        name.len() == 0
    } else if pattern[0] == '%' {
        ||| like(pattern.skip(1), name)
        ||| name.len() > 0 && like(pattern, name.skip(1))
    } else if pattern[0] == '_' {
        name.len() > 0 && like(pattern.skip(1), name.skip(1))
    } else if pattern[0] == '\\' {
        pattern.len() > 1 && name.len() > 0 && name[0] == pattern[1] && like(
            pattern.skip(2),
            name.skip(1),
        )
    } else {
        name.len() > 0 && name[0] == pattern[0] && like(pattern.skip(1), name.skip(1))
    }
}

/// The pattern for an audience matches the names that begin with its
/// identifier and an underscore, and no others: the roles of another audience
/// are left alone.
pub proof fn only_roles_of_the_audience_match(audience: Seq<char>, name: Seq<char>)
    requires
        identifier_of(audience) is Some,
    ensures
        like(role_pattern(identifier_of(audience)->0), name) <==> text::begins_with(
            name,
            identifier_of(audience)->0 + "_"@,
        ),
{
    let prefix = identifier_of(audience)->0;
    let tail = "\\_%"@;
    reveal_strlit("\\_%");
    reveal_strlit("_");
    lemma_identifier_is_plain(audience);
    lemma_like_escaped(prefix, tail, name);
    let n = prefix.len() as int;
    if name.len() > n {
        let rest = name.skip(n);
        assert(tail.skip(2) =~= seq!['%']);
        lemma_like_any(rest.skip(1));
        assert(like(tail, rest) <==> rest[0] == '_');
    }
    let start = prefix + "_"@;
    if like(role_pattern(prefix), name) {
        assert(name.take(n) =~= prefix);
        assert(name.subrange(0, start.len() as int) =~= start);
    }
    if text::begins_with(name, start) {
        assert(name.subrange(0, start.len() as int) =~= start);
        assert(name.take(n) =~= prefix) by {
            assert forall|i: int| 0 <= i < n implies name[i] == prefix[i] by {
                assert(name.subrange(0, start.len() as int)[i] == start[i]);
            }
        }
        assert(name[n] == '_') by {
            assert(name.subrange(0, start.len() as int)[n] == start[n]);
        }
    }
}

spec fn plain(s: Seq<char>) -> bool {
    forall|i: int| 0 <= i < s.len() ==> #[trigger] s[i] != '%' && s[i] != '\\'
}

proof fn lemma_identifier_is_plain(audience: Seq<char>)
    requires
        identifier_of(audience) is Some,
    ensures
        plain(identifier_of(audience)->0),
{
    let kept = identifier_chars(audience);
    let prefix = identifier_of(audience)->0;
    assert forall|i: int| 0 <= i < prefix.len() implies #[trigger] prefix[i] != '%' && prefix[i]
        != '\\' by {
        audience.lemma_filter_pred(|c: char| identifier_char(c), i);
        assert(identifier_char(kept[i]));
    }
}

proof fn lemma_like_any(name: Seq<char>)
    ensures
        like(seq!['%'], name),
    decreases name.len(),
{
    let any = seq!['%'];
    if name.len() == 0 {
        assert(any.skip(1) =~= Seq::empty());
        assert(like(any.skip(1), name));
    } else {
        lemma_like_any(name.skip(1));
    }
}

proof fn lemma_escaped_front(s: Seq<char>)
    requires
        s.len() > 0,
    ensures
        escaped(s) == escaped_char(s[0]) + escaped(s.skip(1)),
    decreases s.len(),
{
    if s.len() == 1 {
        assert(s.drop_last() =~= Seq::empty());
        assert(s.skip(1) =~= Seq::empty());
    } else {
        let front = s.drop_last();
        lemma_escaped_front(front);
        assert(front.skip(1) =~= s.skip(1).drop_last());
        assert(s.skip(1).last() == s.last());
    }
    assert(escaped(s) =~= escaped_char(s[0]) + escaped(s.skip(1)));
}

proof fn lemma_like_escaped(prefix: Seq<char>, tail: Seq<char>, name: Seq<char>)
    requires
        plain(prefix),
    ensures
        like(escaped(prefix) + tail, name) <==> {
            &&& name.len() >= prefix.len()
            &&& name.take(prefix.len() as int) == prefix
            &&& like(tail, name.skip(prefix.len() as int))
        },
    decreases prefix.len(),
{
    if prefix.len() == 0 {
        assert(escaped(prefix) + tail =~= tail);
        assert(name.take(0) =~= prefix);
        assert(name.skip(0) =~= name);
    } else {
        let c = prefix[0];
        let rest = prefix.skip(1);
        let pattern = escaped(prefix) + tail;
        lemma_escaped_front(prefix);
        assert(plain(rest)) by {
            assert forall|i: int| 0 <= i < rest.len() implies #[trigger] rest[i] != '%' && rest[i]
                != '\\' by {
                assert(prefix[i + 1] == rest[i]);
            }
        }
        assert(pattern.skip(escaped_char(c).len() as int) =~= escaped(rest) + tail);
        assert(pattern[0] == escaped_char(c)[0]);
        if c == '_' {
            assert(pattern[1] == '_');
        }
        if name.len() > 0 {
            lemma_like_escaped(rest, tail, name.skip(1));
            if name.len() >= prefix.len() {
                let n = prefix.len() as int;
                assert(name.skip(1).skip(n - 1) =~= name.skip(n));
                if name[0] == c && name.skip(1).take(n - 1) == rest {
                    assert(name.take(n) =~= prefix) by {
                        assert forall|i: int| 0 <= i < n implies name[i] == prefix[i] by {
                            if i > 0 {
                                assert(name.skip(1).take(n - 1)[i - 1] == rest[i - 1]);
                            }
                        }
                    }
                }
                if name.take(n) == prefix {
                    assert(name[0] == c) by {
                        assert(name.take(n)[0] == prefix[0]);
                    }
                    assert(name.skip(1).take(n - 1) =~= rest) by {
                        assert forall|i: int| 0 <= i < n - 1 implies name.skip(1).take(n - 1)[i]
                            == rest[i] by {
                            assert(name.take(n)[i + 1] == prefix[i + 1]);
                        }
                    }
                }
            }
        }
    }
}

/// List the patterns that the roles leased for some audiences match, one for
/// each distinct identifier.
pub fn repair_patterns(audiences: &Vec<String>) -> (res: Vec<String>)
    ensures
        text::views(res@) == audience_prefixes(text::views(audiences@)).map_values(
            |prefix: Seq<char>| role_pattern(prefix),
        ),
{
    let ghost all = text::views(audiences@);
    let ghost mut prefixes: Seq<Seq<char>> = Seq::empty();
    let mut seen = StringSet::new();
    let mut patterns: Vec<String> = Vec::new();
    let n: usize = audiences.len();
    let mut i: usize = 0;
    assert(all.take(0) =~= Seq::empty());
    assert(text::views(patterns@) =~= prefixes.map_values(
        |prefix: Seq<char>| role_pattern(prefix),
    ));
    while i < n
        invariant
            i <= n,
            n == audiences@.len(),
            all == text::views(audiences@),
            prefixes == audience_prefixes(all.take(i as int)),
            forall|x: Seq<char>| seen@.contains(x) <==> prefixes.contains(x),
            text::views(patterns@) == prefixes.map_values(
                |prefix: Seq<char>| role_pattern(prefix),
            ),
        decreases n - i,
    {
        let ghost before = prefixes;
        let ghost seen_before = seen@;
        let ghost patterns_before = text::views(patterns@);
        proof {
            assert(all.take(i + 1).drop_last() =~= all.take(i as int));
            assert(all.take(i + 1).last() == audiences@[i as int]@);
        }
        if let Some(prefix) = sanitize_identifier(audiences[i].as_str()) {
            if !seen.contains(prefix.as_str()) {
                let escaped_prefix = escape_like(prefix.as_str());
                let pattern = text::concat2(escaped_prefix.as_str(), "\\_%");
                let ghost added = prefix@;
                seen = seen.with(prefix);
                patterns.push(pattern);
                proof {
                    prefixes = before.push(added);
                    assert(text::views(patterns@) =~= patterns_before.push(role_pattern(added)));
                    assert(text::views(patterns@) =~= prefixes.map_values(
                        |prefix: Seq<char>| role_pattern(prefix),
                    ));
                    assert forall|x: Seq<char>| seen@.contains(x) <==> prefixes.contains(x) by {
                        if before.contains(x) {
                            let k = choose|k: int| 0 <= k < before.len() && before[k] == x;
                            assert(prefixes[k] == x);
                        }
                        if x == added {
                            assert(prefixes[before.len() as int] == x);
                        }
                    }
                }
            }
        }
        i = i + 1;
    }
    assert(all.take(n as int) =~= all);
    patterns
}

/// No identifier is asked for twice.
pub proof fn audience_prefixes_are_distinct(audiences: Seq<Seq<char>>)
    ensures
        audience_prefixes(audiences).no_duplicates(),
    decreases audiences.len(),
{
    if audiences.len() > 0 {
        audience_prefixes_are_distinct(audiences.drop_last());
        let before = audience_prefixes(audiences.drop_last());
        let after = audience_prefixes(audiences);
        assert forall|i: int, j: int|
            0 <= i < after.len() && 0 <= j < after.len() && i != j implies after[i] != after[j] by {
            if i == before.len() {
                assert(before.contains(after[j]));
            }
            if j == before.len() {
                assert(before.contains(after[i]));
            }
        }
    }
}

/// The statements that hand the objects of a leased role to the owner and drop
/// the role.
#[derive(Debug)]
pub struct RepairStatements {
    pub reassign: String,
    pub drop_owned: String,
    pub drop_role: String,
}

/// The statements that hand the objects of a leased role to the owner and drop
/// the role, over views.
pub struct RepairView {
    pub reassign: Seq<char>,
    pub drop_owned: Seq<char>,
    pub drop_role: Seq<char>,
}

impl View for RepairStatements {
    type V = RepairView;

    open spec fn view(&self) -> RepairView {
        RepairView {
            reassign: self.reassign@,
            drop_owned: self.drop_owned@,
            drop_role: self.drop_role@,
        }
    }
}

/// The statements that hand the objects of a leased role to the owner and drop
/// the role.
pub open spec fn repair_of(lease_role: Seq<char>, owner_role: Seq<char>) -> RepairView {
    RepairView {
        reassign: "REASSIGN OWNED BY "@ + quoted(lease_role) + " TO "@ + quoted(owner_role),
        drop_owned: "DROP OWNED BY "@ + quoted(lease_role),
        drop_role: "DROP ROLE IF EXISTS "@ + quoted(lease_role),
    }
}

/// Only the leased role loses anything: it is the one that objects are taken
/// from, whose rest is dropped and that is dropped itself, and the owner is
/// named once, as the one that gets the objects. Other owners change the first
/// statement alone.
pub proof fn repairs_take_from_the_leased_role(
    lease_role: Seq<char>,
    owner_role: Seq<char>,
    other_owner: Seq<char>,
)
    ensures
        ({
            let repair = repair_of(lease_role, owner_role);
            let lease = quoted(lease_role);
            let owner = quoted(owner_role);
            let from = "REASSIGN OWNED BY "@.len();
            let to = from + lease.len() + " TO "@.len();
            &&& repair.reassign.len() == to + owner.len()
            &&& repair.reassign.subrange(0, from as int) == "REASSIGN OWNED BY "@
            &&& repair.reassign.subrange(from as int, (from + lease.len()) as int) == lease
            &&& repair.reassign.subrange((from + lease.len()) as int, to as int) == " TO "@
            &&& repair.reassign.skip(to as int) == owner
            &&& repair.drop_owned.take("DROP OWNED BY "@.len() as int) == "DROP OWNED BY "@
            &&& repair.drop_owned.skip("DROP OWNED BY "@.len() as int) == lease
            &&& repair.drop_role.take("DROP ROLE IF EXISTS "@.len() as int)
                == "DROP ROLE IF EXISTS "@
            &&& repair.drop_role.skip("DROP ROLE IF EXISTS "@.len() as int) == lease
            &&& repair.drop_owned == repair_of(lease_role, other_owner).drop_owned
            &&& repair.drop_role == repair_of(lease_role, other_owner).drop_role
        }),
{
    let repair = repair_of(lease_role, owner_role);
    let lease = quoted(lease_role);
    let owner = quoted(owner_role);
    let from = "REASSIGN OWNED BY "@.len();
    let to = from + lease.len() + " TO "@.len();
    assert(repair.reassign.subrange(0, from as int) =~= "REASSIGN OWNED BY "@);
    assert(repair.reassign.subrange(from as int, (from + lease.len()) as int) =~= lease);
    assert(repair.reassign.subrange((from + lease.len()) as int, to as int) =~= " TO "@);
    assert(repair.reassign.skip(to as int) =~= owner);
    assert(repair.drop_owned.take("DROP OWNED BY "@.len() as int) =~= "DROP OWNED BY "@);
    assert(repair.drop_owned.skip("DROP OWNED BY "@.len() as int) =~= lease);
    assert(repair.drop_role.take("DROP ROLE IF EXISTS "@.len() as int)
        =~= "DROP ROLE IF EXISTS "@);
    assert(repair.drop_role.skip("DROP ROLE IF EXISTS "@.len() as int) =~= lease);
}

/// Write the statements that hand the objects of a leased role to the owner
/// and drop the role.
pub fn repair_statements(lease_role: &str, owner_role: &str) -> (res: RepairStatements)
    ensures
        res@ == repair_of(lease_role@, owner_role@),
{
    let lease = quote_identifier(lease_role);
    let owner = quote_identifier(owner_role);
    RepairStatements {
        reassign: text::concat3("REASSIGN OWNED BY ", lease.as_str(), " TO ").concat(
            owner.as_str(),
        ),
        drop_owned: text::concat2("DROP OWNED BY ", lease.as_str()),
        drop_role: text::concat2("DROP ROLE IF EXISTS ", lease.as_str()),
    }
}

/// Whether ownership can be handed to a role, which has to exist.
pub fn check_owner_role(owner_role: &str, owner_exists: bool) -> (res: Result<(), Rejection>)
    ensures
        res is Ok <==> owner_exists,
        res matches Err(rejection) ==> rejection@ == "stable Postgres owner role '"@ + owner_role@
            + "' does not exist"@,
{
    if owner_exists {
        Ok(())
    } else {
        let reason = text::concat3("stable Postgres owner role '", owner_role, "' does not exist");
        Err(rejected(reason.as_str()))
    }
}

/// The lifecycle that a word stands for.
pub open spec fn lifecycle_of(word: Seq<char>) -> Option<SecretLifecycle> {
    if word == "single_use_unwrap"@ || word == "single-use-unwrap"@ || word == "singleuseunwrap"@ {
        Some(SecretLifecycle::SingleUseUnwrap)
    } else if word == "renewable_lease"@ || word == "renewable-lease"@ || word
        == "renewablelease"@ {
        Some(SecretLifecycle::RenewableLease)
    } else if word == "service_bootstrap"@ || word == "service-bootstrap"@ || word
        == "servicebootstrap"@ {
        Some(SecretLifecycle::ServiceBootstrap)
    } else {
        None
    }
}

/// What is said of a word that stands for no lifecycle.
pub open spec fn unsupported_lifecycle(word: Seq<char>) -> Seq<char> {
    "unsupported lifecycle '"@ + word
        + "' ; expected single_use_unwrap, renewable_lease, or service_bootstrap"@
}

/// Read the lifecycle of a secret.
pub fn parse_wrap_lifecycle(raw: &str) -> (res: Result<SecretLifecycle, Rejection>)
    ensures
        ({
            let word = text::ascii_lowercase(text::trimmed(raw@));
            match res {
                Ok(lifecycle) => lifecycle_of(word) == Some(lifecycle),
                Err(rejection) => lifecycle_of(word) is None && rejection@
                    == unsupported_lifecycle(word),
            }
        }),
{
    let word = text::to_ascii_lowercase(text::trim(raw));
    let word = word.as_str();
    if text::equal(word, "single_use_unwrap") || text::equal(word, "single-use-unwrap")
        || text::equal(word, "singleuseunwrap") {
        Ok(SecretLifecycle::SingleUseUnwrap)
    } else if text::equal(word, "renewable_lease") || text::equal(word, "renewable-lease")
        || text::equal(word, "renewablelease") {
        Ok(SecretLifecycle::RenewableLease)
    } else if text::equal(word, "service_bootstrap") || text::equal(word, "service-bootstrap")
        || text::equal(word, "servicebootstrap") {
        Ok(SecretLifecycle::ServiceBootstrap)
    } else {
        let reason = text::concat3(
            "unsupported lifecycle '",
            word,
            "' ; expected single_use_unwrap, renewable_lease, or service_bootstrap",
        );
        Err(rejected(reason.as_str()))
    }
}

/// A secret that is to be wrapped.
#[derive(Debug)]
pub struct WrapRequest {
    pub plaintext: String,
    pub lifecycle: SecretLifecycle,
    pub label: Option<String>,
    pub unwrap_principal_id: Option<String>,
}

/// A secret that is to be wrapped, over views.
pub struct WrapView {
    pub plaintext: Seq<char>,
    pub lifecycle: SecretLifecycle,
    pub label: Option<Seq<char>>,
    pub unwrap_principal_id: Option<Seq<char>>,
}

impl View for WrapRequest {
    type V = WrapView;

    open spec fn view(&self) -> WrapView {
        WrapView {
            plaintext: self.plaintext@,
            lifecycle: self.lifecycle,
            label: text::optional(self.label),
            unwrap_principal_id: text::optional(self.unwrap_principal_id),
        }
    }
}

/// An option without the blanks around it; none where only blanks are in it.
pub open spec fn tidy(value: Option<Seq<char>>) -> Option<Seq<char>> {
    match value {
        Some(value) => if text::is_blank(value) {
            None
        } else {
            Some(text::trimmed(value))
        },
        None => None,
    }
}

fn tidied(value: Option<&str>) -> (res: Option<String>)
    ensures
        text::optional(res) == tidy(text::optional_str(value)),
{
    match value {
        Some(value) => {
            let trimmed = text::trim(value);
            if trimmed.is_empty() {
                None
            } else {
                Some(trimmed.to_owned())
            }
        },
        None => None,
    }
}

/// The request to wrap the secret that a variable holds.
pub open spec fn wrap_request_of(
    variable: Seq<char>,
    plaintext: EnvView,
    lifecycle: Seq<char>,
    label: Option<Seq<char>>,
    unwrap_principal_id: Option<Seq<char>>,
) -> Result<WrapView, Seq<char>> {
    match config::required(variable, plaintext) {
        Err(reason) => Err(reason),
        Ok(plaintext) => {
            let word = text::ascii_lowercase(text::trimmed(lifecycle));
            match lifecycle_of(word) {
                None => Err(unsupported_lifecycle(word)),
                Some(lifecycle) => Ok(
                    WrapView {
                        plaintext,
                        lifecycle,
                        label: tidy(label),
                        unwrap_principal_id: tidy(unwrap_principal_id),
                    },
                ),
            }
        },
    }
}

/// Prepare the request to wrap the secret that a variable holds.
pub fn wrap_secret_v2(
    variable: &str,
    plaintext: &EnvValue,
    lifecycle: &str,
    label: Option<&str>,
    unwrap_principal_id: Option<&str>,
) -> (res: Result<WrapRequest, Rejection>)
    ensures
        config::answer(res) == wrap_request_of(
            variable@,
            plaintext@,
            lifecycle@,
            text::optional_str(label),
            text::optional_str(unwrap_principal_id),
        ),
{
    let plaintext = match config::required_env(variable, plaintext) {
        Ok(plaintext) => plaintext,
        Err(rejection) => return Err(rejection),
    };
    let lifecycle = match parse_wrap_lifecycle(lifecycle) {
        Ok(lifecycle) => lifecycle,
        Err(rejection) => return Err(rejection),
    };
    Ok(
        WrapRequest {
            plaintext,
            lifecycle,
            label: tidied(label),
            unwrap_principal_id: tidied(unwrap_principal_id),
        },
    )
}

/// The members of the file that holds a wrapped secret.
pub open spec fn sealed_config_members(
    handle: Seq<char>,
    redeem_token: Seq<char>,
    issued_at: Seq<char>,
) -> Map<Seq<char>, MemberView> {
    Map::empty().insert("handle"@, MemberView::Text(handle)).insert(
        "redeem_token"@,
        MemberView::Text(redeem_token),
    ).insert("issued_at"@, MemberView::Text(issued_at))
}

/// The members of the file that holds a wrapped secret: how it is redeemed and
/// when it was issued, but not the secret.
pub fn sealed_config(handle: &str, redeem_token: &str, issued_at: &str) -> (res: Vec<
    (String, JsonMember),
>)
    ensures
        json::members(res@) == sealed_config_members(handle@, redeem_token@, issued_at@),
        json::pairs_view(res@) == sealed_config_pairs(handle@, redeem_token@, issued_at@),
        json::spelled_out(json::pairs_view(res@)),
{
    let mut config: Vec<(String, JsonMember)> = Vec::new();
    json::push_text(&mut config, "handle", handle.to_owned());
    json::push_text(&mut config, "redeem_token", redeem_token.to_owned());
    json::push_text(&mut config, "issued_at", issued_at.to_owned());
    assert(json::pairs_view(config@) =~= sealed_config_pairs(handle@, redeem_token@, issued_at@));
    proof {
        reveal_strlit("handle");
        reveal_strlit("redeem_token");
        reveal_strlit("issued_at");
    }
    config
}

/// The members of the file that holds a wrapped secret, in their order.
pub open spec fn sealed_config_pairs(
    handle: Seq<char>,
    redeem_token: Seq<char>,
    issued_at: Seq<char>,
) -> Seq<(Seq<char>, MemberView)> {
    seq![
        ("handle"@, MemberView::Text(handle)),
        ("redeem_token"@, MemberView::Text(redeem_token)),
        ("issued_at"@, MemberView::Text(issued_at)),
    ]
}

/// The text of the file that holds a wrapped secret: one JSON object with its
/// three members, and a line end.
pub fn sealed_config_text(handle: &str, redeem_token: &str, issued_at: &str) -> (res: String)
    ensures
        res@ == json::json_pretty(sealed_config_pairs(handle@, redeem_token@, issued_at@)) + "\n"@,
        json::json_members(res@) == Some(
            sealed_config_members(handle@, redeem_token@, issued_at@),
        ),
{
    let config = sealed_config(handle, redeem_token, issued_at);
    let text = json::to_pretty_text(&config);
    text::concat2(text.as_str(), "\n")
}

/// Every option that is not blank reaches the request, without the blanks
/// around it; one that is not given or blank leaves its place empty. The
/// plaintext is taken as it is.
pub proof fn options_reach_the_request(
    variable: Seq<char>,
    plaintext: EnvView,
    lifecycle: Seq<char>,
    label: Option<Seq<char>>,
    unwrap_principal_id: Option<Seq<char>>,
)
    ensures
        wrap_request_of(variable, plaintext, lifecycle, label, unwrap_principal_id) matches Ok(
            request,
        ) ==> {
            &&& plaintext == EnvView::Present(request.plaintext)
            &&& !text::is_blank(request.plaintext)
            &&& request.label is None <==> label is None || text::is_blank(label->0)
            &&& request.label is Some ==> request.label->0 == text::trimmed(label->0)
            &&& request.unwrap_principal_id is None <==> unwrap_principal_id is None
                || text::is_blank(unwrap_principal_id->0)
            &&& request.unwrap_principal_id is Some ==> request.unwrap_principal_id->0
                == text::trimmed(unwrap_principal_id->0)
        },
        wrap_request_of(variable, plaintext, lifecycle, label, unwrap_principal_id) is Ok <==> {
            &&& plaintext matches EnvView::Present(secret) && !text::is_blank(secret)
            &&& lifecycle_of(text::ascii_lowercase(text::trimmed(lifecycle))) is Some
        },
        wrap_request_of(variable, plaintext, lifecycle, label, unwrap_principal_id) is Ok
            ==> lifecycle_of(text::ascii_lowercase(text::trimmed(lifecycle))) == Some(
            wrap_request_of(
                variable,
                plaintext,
                lifecycle,
                label,
                unwrap_principal_id,
            )->Ok_0.lifecycle,
        ),
{
}

/// The three lifecycles have three spellings each, and no word has two
/// meanings.
pub proof fn lifecycles_have_three_spellings(word: Seq<char>)
    ensures
        word == "single_use_unwrap"@ || word == "single-use-unwrap"@ || word == "singleuseunwrap"@
            <==> lifecycle_of(word) == Some(SecretLifecycle::SingleUseUnwrap),
        word == "renewable_lease"@ || word == "renewable-lease"@ || word == "renewablelease"@
            <==> lifecycle_of(word) == Some(SecretLifecycle::RenewableLease),
        word == "service_bootstrap"@ || word == "service-bootstrap"@ || word == "servicebootstrap"@
            <==> lifecycle_of(word) == Some(SecretLifecycle::ServiceBootstrap),
{
    reveal_strlit("single_use_unwrap");
    reveal_strlit("single-use-unwrap");
    reveal_strlit("singleuseunwrap");
    reveal_strlit("renewable_lease");
    reveal_strlit("renewable-lease");
    reveal_strlit("renewablelease");
    reveal_strlit("service_bootstrap");
    reveal_strlit("service-bootstrap");
    reveal_strlit("servicebootstrap");
    assert("single_use_unwrap"@[1] == 'i' && "single-use-unwrap"@[1] == 'i'
        && "singleuseunwrap"@[1] == 'i');
    assert("renewable_lease"@[0] == 'r' && "renewable-lease"@[0] == 'r' && "renewablelease"@[0]
        == 'r');
    assert("service_bootstrap"@[1] == 'e' && "service-bootstrap"@[1] == 'e'
        && "servicebootstrap"@[1] == 'e');
    assert("service_bootstrap"@[0] == 's' && "service-bootstrap"@[0] == 's'
        && "servicebootstrap"@[0] == 's');
}

/// An address that is named comes before that of the environment, blank or
/// not; what is chosen is never blank, and is taken as it is.
pub proof fn named_addresses_come_first(named: Seq<char>, env: EnvView)
    ensures
        database_url_of(Some(named), env) is Ok <==> !text::is_blank(named),
        !text::is_blank(named) ==> database_url_of(Some(named), env) == Ok::<_, Seq<char>>(named),
        env matches EnvView::Present(url) ==> (database_url_of(None, env) is Ok <==> !text::is_blank(
            url,
        )),
        database_url_of(None, env) matches Ok(url) ==> env == EnvView::Present(url),
        !(env is Present) ==> database_url_of(None, env) is Err,
{
}

/// A role that is named comes before that of the address and is taken as it
/// is; the user of the address counts without the blanks around it.
pub proof fn named_owners_come_first(
    named: Seq<char>,
    endpoint: endpoint::EndpointView,
    other: Option<endpoint::EndpointView>,
)
    ensures
        owner_role_for(Some(named), other) == Ok::<_, Seq<char>>(named),
        owner_role_for(None, None) is Err,
        owner_role_for(None, Some(endpoint)) is Ok <==> !text::is_blank(endpoint.username),
        owner_role_for(None, Some(endpoint)) matches Ok(role) ==> role == text::trimmed(
            endpoint.username,
        ),
{
}

/// What a list of settings gives a name, by the last setting of that name.
pub open spec fn setting_of(settings: Seq<(Seq<char>, Seq<char>)>, name: Seq<char>) -> Option<
    Seq<char>,
>
    decreases settings.len(),
{
    if settings.len() == 0 {
        None
    } else if settings.last().0 == name {
        Some(settings.last().1)
    } else {
        setting_of(settings.drop_last(), name)
    }
}

/// A migration runs with the given address as a static one that is allowed for
/// this run, and with each option that is given under its own name; of an
/// option that is not given nothing is set.
pub proof fn migrations_run_with_their_options(database_url: Seq<char>, options: MigrationOptions)
    ensures
        ({
            let settings = migration_settings_of(database_url, options);
            &&& setting_of(settings, "SECURE_DB_ALLOW_STATIC"@) == Some("1"@)
            &&& setting_of(settings, "SECURE_DB_ALLOW_DIRECT_BOOTSTRAP"@) == Some("1"@)
            &&& setting_of(settings, "SECURE_DB_CREDENTIAL_SOURCE"@) == Some("static"@)
            &&& setting_of(settings, "SECURE_DB_URL"@) == Some(database_url)
            &&& setting_of(settings, "SECURE_DB_POOL_MAX"@) == (match options.pool_max {
                Some(max) => Some(text::decimal(max as nat)),
                None => None,
            })
            &&& setting_of(settings, "SECURE_DB_POOL_MIN"@) == (match options.pool_min {
                Some(min) => Some(text::decimal(min as nat)),
                None => None,
            })
            &&& setting_of(settings, "SECURE_DB_CONNECT_TIMEOUT"@) == (
            match options.connect_timeout {
                Some(seconds) => Some(text::decimal(seconds as nat)),
                None => None,
            })
            &&& setting_of(settings, "SECURE_DB_IDLE_TIMEOUT"@) == (match options.idle_timeout {
                Some(seconds) => Some(text::decimal(seconds as nat)),
                None => None,
            })
            &&& setting_of(settings, "SECURE_DB_APP_NAME"@) == text::optional(
                options.application_name,
            )
        }),
{
    lemma_setting_names();
    let first: Seq<(Seq<char>, Seq<char>)> = seq![
        ("SECURE_DB_ALLOW_STATIC"@, "1"@),
        ("SECURE_DB_ALLOW_DIRECT_BOOTSTRAP"@, "1"@),
        ("SECURE_DB_CREDENTIAL_SOURCE"@, "static"@),
        ("SECURE_DB_URL"@, database_url),
    ];
    let max = number_setting("SECURE_DB_POOL_MAX"@, natural_u32(options.pool_max));
    let min = number_setting("SECURE_DB_POOL_MIN"@, natural_u32(options.pool_min));
    let connect = number_setting(
        "SECURE_DB_CONNECT_TIMEOUT"@,
        natural_u64(options.connect_timeout),
    );
    let idle = number_setting("SECURE_DB_IDLE_TIMEOUT"@, natural_u64(options.idle_timeout));
    let name: Seq<(Seq<char>, Seq<char>)> = match text::optional(options.application_name) {
        Some(name) => seq![("SECURE_DB_APP_NAME"@, name)],
        None => Seq::empty(),
    };
    assert forall|wanted: Seq<char>| #[trigger]
        setting_of(migration_settings_of(database_url, options), wanted) == setting_of(
            first + max + min + connect + idle + name,
            wanted,
        ) by {
        assert(migration_settings_of(database_url, options) =~= first + max + min + connect + idle
            + name);
    }
    assert forall|wanted: Seq<char>| #[trigger]
        setting_of(first + max + min + connect + idle + name, wanted) == (
        if name.len() > 0 && name[0].0 == wanted {
            Some(name[0].1)
        } else if idle.len() > 0 && idle[0].0 == wanted {
            Some(idle[0].1)
        } else if connect.len() > 0 && connect[0].0 == wanted {
            Some(connect[0].1)
        } else if min.len() > 0 && min[0].0 == wanted {
            Some(min[0].1)
        } else if max.len() > 0 && max[0].0 == wanted {
            Some(max[0].1)
        } else {
            setting_of(first, wanted)
        }) by {
        lemma_setting_behind(first, max, wanted);
        lemma_setting_behind(first + max, min, wanted);
        lemma_setting_behind(first + max + min, connect, wanted);
        lemma_setting_behind(first + max + min + connect, idle, wanted);
        lemma_setting_behind(first + max + min + connect + idle, name, wanted);
    }
    let f3 = first.drop_last();
    let f2 = f3.drop_last();
    let f1 = f2.drop_last();
    assert(f1.drop_last() =~= Seq::empty());
    assert forall|wanted: Seq<char>| #[trigger]
        setting_of(first, wanted) == (if wanted == "SECURE_DB_URL"@ {
            Some(database_url)
        } else if wanted == "SECURE_DB_CREDENTIAL_SOURCE"@ {
            Some("static"@)
        } else if wanted == "SECURE_DB_ALLOW_DIRECT_BOOTSTRAP"@ {
            Some("1"@)
        } else if wanted == "SECURE_DB_ALLOW_STATIC"@ {
            Some("1"@)
        } else {
            None
        }) by {
        reveal_with_fuel(setting_of, 5);
        assert(first.last() == ("SECURE_DB_URL"@, database_url));
        assert(f3.last() == ("SECURE_DB_CREDENTIAL_SOURCE"@, "static"@));
        assert(f2.last() == ("SECURE_DB_ALLOW_DIRECT_BOOTSTRAP"@, "1"@));
        assert(f1.last() == ("SECURE_DB_ALLOW_STATIC"@, "1"@));
    }
}

proof fn lemma_setting_behind(
    before: Seq<(Seq<char>, Seq<char>)>,
    one: Seq<(Seq<char>, Seq<char>)>,
    wanted: Seq<char>,
)
    requires
        one.len() <= 1,
    ensures
        setting_of(before + one, wanted) == (if one.len() > 0 && one[0].0 == wanted {
            Some(one[0].1)
        } else {
            setting_of(before, wanted)
        }),
{
    if one.len() == 0 {
        assert(before + one =~= before);
    } else {
        assert((before + one).drop_last() =~= before);
        assert((before + one).last() == one[0]);
    }
}

proof fn lemma_setting_names()
    ensures
        "SECURE_DB_ALLOW_STATIC"@.len() == 22,
        "SECURE_DB_ALLOW_DIRECT_BOOTSTRAP"@.len() == 32,
        "SECURE_DB_CREDENTIAL_SOURCE"@.len() == 27,
        "SECURE_DB_URL"@.len() == 13,
        "SECURE_DB_POOL_MAX"@.len() == 18,
        "SECURE_DB_POOL_MIN"@.len() == 18,
        "SECURE_DB_CONNECT_TIMEOUT"@.len() == 25,
        "SECURE_DB_IDLE_TIMEOUT"@.len() == 22,
        "SECURE_DB_APP_NAME"@.len() == 18,
        "SECURE_DB_POOL_MAX"@[16] == 'A',
        "SECURE_DB_POOL_MIN"@[16] == 'I',
        "SECURE_DB_APP_NAME"@[16] == 'M',
        "SECURE_DB_ALLOW_STATIC"@[10] == 'A',
        "SECURE_DB_IDLE_TIMEOUT"@[10] == 'I',
{
    reveal_strlit("SECURE_DB_ALLOW_STATIC");
    reveal_strlit("SECURE_DB_ALLOW_DIRECT_BOOTSTRAP");
    reveal_strlit("SECURE_DB_CREDENTIAL_SOURCE");
    reveal_strlit("SECURE_DB_URL");
    reveal_strlit("SECURE_DB_POOL_MAX");
    reveal_strlit("SECURE_DB_POOL_MIN");
    reveal_strlit("SECURE_DB_CONNECT_TIMEOUT");
    reveal_strlit("SECURE_DB_IDLE_TIMEOUT");
    reveal_strlit("SECURE_DB_APP_NAME");
}

/// An identifier is made of the letters, digits, underscores and hyphens of a
/// text in lower case: nothing else is in it, it does not depend on the case
/// of letters, and it is its own identifier. A text without any has none.
pub proof fn identifiers_are_stable(s: Seq<char>)
    ensures
        identifier_of(s) is None <==> forall|i: int|
            0 <= i < s.len() ==> !identifier_char(#[trigger] s[i]),
        identifier_of(s) matches Some(id) ==> {
            &&& id.len() > 0 && id.len() <= s.len()
            &&& forall|i: int|
                0 <= i < id.len() ==> {
                    let c = #[trigger] id[i];
                    ('a' <= c && c <= 'z') || ('0' <= c && c <= '9') || c == '_' || c == '-'
                }
            &&& identifier_of(id) == Some(id)
        },
{
    let pred = |c: char| identifier_char(c);
    let kept = identifier_chars(s);
    s.filter_lemma(pred);
    if forall|i: int| 0 <= i < s.len() ==> !identifier_char(#[trigger] s[i]) {
        s.lemma_all_neg_filter_empty(pred);
    } else {
        let i = choose|i: int| 0 <= i < s.len() && identifier_char(#[trigger] s[i]);
        s.lemma_filter_contains(pred, i);
        assert(kept.contains(s[i]));
        assert(kept.len() > 0);
    }
    if let Some(id) = identifier_of(s) {
        s.lemma_filter_len(pred);
        assert forall|i: int| 0 <= i < id.len() implies {
            let c = #[trigger] id[i];
            ('a' <= c && c <= 'z') || ('0' <= c && c <= '9') || c == '_' || c == '-'
        } by {
            assert(identifier_char(kept[i])) by {
                s.lemma_filter_pred(pred, i);
            }
        }
        lemma_filter_keeps(id, pred);
        assert(text::ascii_lowercase(id) =~= id);
    }
}

proof fn lemma_filter_keeps(s: Seq<char>, pred: spec_fn(char) -> bool)
    requires
        forall|i: int| 0 <= i < s.len() ==> pred(#[trigger] s[i]),
    ensures
        s.filter(pred) == s,
    decreases s.len(),
{
    reveal(Seq::filter);
    if s.len() > 0 {
        let rest = s.drop_last();
        assert forall|i: int| 0 <= i < rest.len() implies pred(#[trigger] rest[i]) by {
            assert(rest[i] == s[i]);
        }
        lemma_filter_keeps(rest, pred);
        assert(pred(s[s.len() - 1]));
        assert(s =~= rest.push(s.last()));
    } else {
        assert(s.filter(pred) =~= s);
    }
}

/// The identifiers of some audiences are those of the audiences that have one,
/// each once: none is left out and none is made up.
pub proof fn audience_prefixes_are_complete(audiences: Seq<Seq<char>>, prefix: Seq<char>)
    ensures
        audience_prefixes(audiences).contains(prefix) <==> exists|i: int|
            0 <= i < audiences.len() && identifier_of(#[trigger] audiences[i]) == Some(prefix),
    decreases audiences.len(),
{
    if audiences.len() > 0 {
        let rest = audiences.drop_last();
        let before = audience_prefixes(rest);
        let all = audience_prefixes(audiences);
        audience_prefixes_are_complete(rest, prefix);
        assert(audiences[audiences.len() - 1] == audiences.last());
        if before.contains(prefix) {
            let k = choose|k: int| 0 <= k < before.len() && before[k] == prefix;
            assert(all[k] == prefix);
            let i = choose|i: int|
                0 <= i < rest.len() && identifier_of(#[trigger] rest[i]) == Some(prefix);
            assert(audiences[i] == rest[i]);
        }
        if identifier_of(audiences.last()) == Some(prefix) && !before.contains(prefix) {
            assert(all[before.len() as int] == prefix);
        }
        if all.contains(prefix) && !before.contains(prefix) {
            assert(identifier_of(audiences.last()) == Some(prefix));
        }
        if exists|i: int|
            0 <= i < audiences.len() && identifier_of(#[trigger] audiences[i]) == Some(prefix) {
            let i = choose|i: int|
                0 <= i < audiences.len() && identifier_of(#[trigger] audiences[i]) == Some(prefix);
            if i < rest.len() {
                assert(rest[i] == audiences[i]);
            }
        }
    }
}

/// The file of a wrapped secret gives back handle, token and time, each under
/// its own name, and nothing else.
pub proof fn sealed_configs_are_read_back(
    handle: Seq<char>,
    redeem_token: Seq<char>,
    issued_at: Seq<char>,
)
    ensures
        ({
            let all = sealed_config_members(handle, redeem_token, issued_at);
            &&& json::member_of(all, "handle"@) == Some(MemberView::Text(handle))
            &&& json::member_of(all, "redeem_token"@) == Some(MemberView::Text(redeem_token))
            &&& json::member_of(all, "issued_at"@) == Some(MemberView::Text(issued_at))
            &&& all.dom() == set!["handle"@, "redeem_token"@, "issued_at"@]
        }),
        sealed_config_pairs(handle, redeem_token, issued_at).len() == 3,
{
    reveal_strlit("handle");
    reveal_strlit("redeem_token");
    reveal_strlit("issued_at");
    assert("handle"@.len() == 6 && "redeem_token"@.len() == 12 && "issued_at"@.len() == 9);
    assert(sealed_config_members(handle, redeem_token, issued_at).dom() =~= set![
        "handle"@,
        "redeem_token"@,
        "issued_at"@,
    ]);
}

/// What is sent to wrap a secret is the secret of the variable as it is, with
/// the lifecycle that was asked for, and with label and principal each in its
/// own place: trimmed, and left out where they are blank or not given.
pub proof fn requests_carry_their_options(
    request: WrapRequest,
    variable: Seq<char>,
    plaintext: EnvValue,
    lifecycle: Seq<char>,
    label: Option<Seq<char>>,
    unwrap_principal_id: Option<Seq<char>>,
)
    requires
        wrap_request_of(variable, plaintext@, lifecycle, label, unwrap_principal_id) == Ok::<
            _,
            Seq<char>,
        >(request@),
    ensures
        plaintext matches EnvValue::Present(secret) && request.plaintext@ == secret@,
        lifecycle_of(text::ascii_lowercase(text::trimmed(lifecycle))) == Some(request.lifecycle),
        request.label is Some <==> label is Some && !text::is_blank(label->0),
        request.label is Some ==> request.label->0@ == text::trimmed(label->0),
        request.unwrap_principal_id is Some <==> unwrap_principal_id is Some && !text::is_blank(
            unwrap_principal_id->0,
        ),
        request.unwrap_principal_id is Some ==> request.unwrap_principal_id->0@ == text::trimmed(
            unwrap_principal_id->0,
        ),
{
}

} // verus!
