//! The client of the secret broker: how it is configured, what it asks for,
//! and which peers it accepts.

use crate::config;
use crate::config::{EnvValue, EnvView};
use crate::error::{rejected, Rejection};
use crate::json;
use crate::json::{JsonMember, MemberView};
use crate::string_set::StringSet;
use crate::text;
use crate::time::Timestamp;
use vstd::prelude::*;

verus! {

/// How the client makes sure of its peer.
#[derive(Debug, Clone, Copy, PartialEq, Eq, Structural)]
pub enum AttestationMode {
    Enforced,
    Disabled,
    Spiffe,
    Local,
}

/// The mode that a word stands for.
pub open spec fn mode_of(word: Seq<char>) -> Option<AttestationMode> {
    if word == "disabled"@ {
        Some(AttestationMode::Disabled)
    } else if word == "spiffe"@ {
        Some(AttestationMode::Spiffe)
    } else if word == "local"@ {
        Some(AttestationMode::Local)
    } else if word == "enforced"@ {
        Some(AttestationMode::Enforced)
    } else {
        None
    }
}

/// The mode that a variable asks for, or the refusal of a word that is none.
pub open spec fn mode_from(key: Seq<char>, value: EnvView, default: Seq<char>) -> Result<
    AttestationMode,
    Seq<char>,
> {
    let raw = value.or_default(default);
    match mode_of(text::ascii_lowercase(text::trimmed(raw))) {
        Some(mode) => Ok(mode),
        None => Err(
            key + " must be one of enforced, spiffe, local, or disabled; got "@ + text::debug_text(
                raw,
            ),
        ),
    }
}

impl AttestationMode {
    /// Read the mode from a variable, with a default for an unset one.
    pub fn from_env_var(key: &str, value: &EnvValue, default: &str) -> (res: Result<
        Self,
        Rejection,
    >)
        ensures
            match res {
                Ok(mode) => mode_from(key@, value@, default@) == Ok::<_, Seq<char>>(mode),
                Err(rejection) => mode_from(key@, value@, default@) == Err::<AttestationMode, _>(
                    rejection@,
                ),
            },
    {
        let raw = value.or(default);
        let word = text::to_ascii_lowercase(text::trim(raw));
        let word = word.as_str();
        if text::equal(word, "disabled") {
            Ok(AttestationMode::Disabled)
        } else if text::equal(word, "spiffe") {
            Ok(AttestationMode::Spiffe)
        } else if text::equal(word, "local") {
            Ok(AttestationMode::Local)
        } else if text::equal(word, "enforced") {
            Ok(AttestationMode::Enforced)
        } else {
            let shown = text::to_debug(raw);
            let reason = text::concat3(
                key,
                " must be one of enforced, spiffe, local, or disabled; got ",
                shown.as_str(),
            );
            Err(rejected(reason.as_str()))
        }
    }

    /// Whether the peer has to be attested.
    pub fn is_enforced(self) -> (res: bool)
        ensures
            res == (self == AttestationMode::Enforced),
    {
        matches!(self, AttestationMode::Enforced)
    }

    /// The name of the mode in messages.
    pub open spec fn name_text(self) -> Seq<char> {
        match self {
            AttestationMode::Enforced => "Enforced"@,
            AttestationMode::Disabled => "Disabled"@,
            AttestationMode::Spiffe => "Spiffe"@,
            AttestationMode::Local => "Local"@,
        }
    }

    /// The name of the mode in messages.
    pub fn name(self) -> (res: &'static str)
        ensures
            res@ == self.name_text(),
    {
        match self {
            AttestationMode::Enforced => "Enforced",
            AttestationMode::Disabled => "Disabled",
            AttestationMode::Spiffe => "Spiffe",
            AttestationMode::Local => "Local",
        }
    }
}

/// Which measurements of a peer are accepted.
#[derive(Debug, Clone)]
pub struct MeasurementPolicy {
    allowed_mrtd: StringSet,
    allowed_mrenclave: StringSet,
    allowed_mrsigner: StringSet,
    min_isvsvn: Option<u16>,
    expected_compose_hash: Option<String>,
}

/// Which measurements of a peer are accepted, over views. An empty set accepts
/// everything.
pub struct PolicyView {
    pub allowed_mrtd: Set<Seq<char>>,
    pub allowed_mrenclave: Set<Seq<char>>,
    pub allowed_mrsigner: Set<Seq<char>>,
    pub min_isvsvn: Option<u16>,
    pub expected_compose_hash: Option<Seq<char>>,
}

impl View for MeasurementPolicy {
    type V = PolicyView;

    closed spec fn view(&self) -> PolicyView {
        PolicyView {
            allowed_mrtd: self.allowed_mrtd@,
            allowed_mrenclave: self.allowed_mrenclave@,
            allowed_mrsigner: self.allowed_mrsigner@,
            min_isvsvn: self.min_isvsvn,
            expected_compose_hash: text::optional(self.expected_compose_hash),
        }
    }
}

/// Whether a set of lower-case values accepts this one, in any case.
pub open spec fn admits(allowed: Set<Seq<char>>, value: Seq<char>) -> bool {
    allowed == Set::<Seq<char>>::empty() || allowed.contains(text::lowercase(value))
}

impl PolicyView {
    /// The policy that accepts everything.
    pub open spec fn accepting_all() -> PolicyView {
        PolicyView {
            allowed_mrtd: Set::empty(),
            allowed_mrenclave: Set::empty(),
            allowed_mrsigner: Set::empty(),
            min_isvsvn: None,
            expected_compose_hash: None,
        }
    }

    /// Whether the measurements of an SGX enclave are accepted.
    pub open spec fn admits_sgx(
        self,
        mrenclave: Seq<char>,
        mrsigner: Seq<char>,
        isvsvn: u16,
    ) -> bool {
        &&& admits(self.allowed_mrenclave, mrenclave)
        &&& admits(self.allowed_mrsigner, mrsigner)
        &&& self.min_isvsvn matches Some(min) ==> isvsvn >= min
    }

    /// Whether a compose hash is accepted.
    pub open spec fn admits_compose_hash(self, compose_hash: Seq<char>) -> bool {
        self.expected_compose_hash matches Some(expected) ==> expected == text::lowercase(
            compose_hash,
        )
    }

    /// Whether the policy restricts a measurement or the compose hash at all.
    pub open spec fn restricts(self) -> bool {
        ||| self.allowed_mrtd != Set::<Seq<char>>::empty()
        ||| self.allowed_mrenclave != Set::<Seq<char>>::empty()
        ||| self.allowed_mrsigner != Set::<Seq<char>>::empty()
        ||| self.expected_compose_hash is Some
    }
}

impl MeasurementPolicy {
    /// The policy that accepts everything.
    pub fn allow_all() -> (res: Self)
        ensures
            res@ == PolicyView::accepting_all(),
    {
        MeasurementPolicy {
            allowed_mrtd: StringSet::new(),
            allowed_mrenclave: StringSet::new(),
            allowed_mrsigner: StringSet::new(),
            min_isvsvn: None,
            expected_compose_hash: None,
        }
    }

    /// Whether the measurement of a TDX domain is accepted.
    pub fn allows_tdx_mrtd(&self, mrtd: &str) -> (res: bool)
        ensures
            res == admits(self@.allowed_mrtd, mrtd@),
    {
        self.allowed_mrtd.is_empty() || self.allowed_mrtd.contains(
            text::to_lowercase(mrtd).as_str(),
        )
    }

    /// Whether the measurements of an SGX enclave are accepted.
    pub fn allows_sgx_measurements(&self, mrenclave: &str, mrsigner: &str, isvsvn: u16) -> (res:
        bool)
        ensures
            res == self@.admits_sgx(mrenclave@, mrsigner@, isvsvn),
    {
        let mrenclave_ok = self.allowed_mrenclave.is_empty() || self.allowed_mrenclave.contains(
            text::to_lowercase(mrenclave).as_str(),
        );
        let mrsigner_ok = self.allowed_mrsigner.is_empty() || self.allowed_mrsigner.contains(
            text::to_lowercase(mrsigner).as_str(),
        );
        let isvsvn_ok = match self.min_isvsvn {
            Some(min) => isvsvn >= min,
            None => true,
        };
        mrenclave_ok && mrsigner_ok && isvsvn_ok
    }

    /// Whether a compose hash is accepted.
    pub fn allows_compose_hash(&self, compose_hash: &str) -> (res: bool)
        ensures
            res == self@.admits_compose_hash(compose_hash@),
    {
        match &self.expected_compose_hash {
            Some(expected) => text::equal(
                expected.as_str(),
                text::to_lowercase(compose_hash).as_str(),
            ),
            None => true,
        }
    }

    /// Whether a compose hash is required.
    pub fn expects_compose_hash(&self) -> (res: bool)
        ensures
            res == (self@.expected_compose_hash is Some),
    {
        self.expected_compose_hash.is_some()
    }
}

/// A named policy.
#[derive(Debug, Clone)]
pub struct ClientPolicy {
    pub policy_name: String,
    pub measurement: MeasurementPolicy,
}

/// A named policy, over views.
pub struct ClientPolicyView {
    pub policy_name: Seq<char>,
    pub measurement: PolicyView,
}

impl View for ClientPolicy {
    type V = ClientPolicyView;

    open spec fn view(&self) -> ClientPolicyView {
        ClientPolicyView { policy_name: self.policy_name@, measurement: self.measurement@ }
    }
}

/// The strings of a list, in lower case.
pub open spec fn lowered(items: Seq<Option<Seq<char>>>) -> Set<Seq<char>>
    decreases items.len(),
{
    if items.len() == 0 {
        Set::empty()
    } else {
        match items.last() {
            Some(item) => lowered(items.drop_last()).insert(text::lowercase(item)),
            None => lowered(items.drop_last()),
        }
    }
}

/// Whether a list has a string among its elements.
pub open spec fn has_string(items: Seq<Option<Seq<char>>>) -> bool {
    exists|i: int| 0 <= i < items.len() && (#[trigger] items[i]) is Some
}

/// The values that a member lists, in lower case; none where it is absent,
/// null or an empty list. An element that is not a string allows nothing.
/// `None` where it is anything but a list, or a list without any string: what
/// it should allow is then unknown, and no values would allow everything.
pub open spec fn member_set(member: Option<MemberView>) -> Option<Set<Seq<char>>> {
    match member {
        None => Some(Set::empty()),
        Some(MemberView::Null) => Some(Set::empty()),
        Some(MemberView::List(items)) => if items.len() == 0 || has_string(items) {
            Some(lowered(items))
        } else {
            None
        },
        Some(_) => None,
    }
}

/// The least security version that a member names; none where it is absent or
/// null. `None` where it is anything but a number of sixteen bits.
pub open spec fn member_minimum(member: Option<MemberView>) -> Option<Option<u16>> {
    match member {
        None => Some(None),
        Some(MemberView::Null) => Some(None),
        Some(MemberView::Unsigned(value)) => if value <= 65_535 {
            Some(Some(value as u16))
        } else {
            None
        },
        Some(_) => None,
    }
}

/// The compose hash that a member names, in lower case; none where it is
/// absent or null. `None` where it is anything but a string.
pub open spec fn member_hash(member: Option<MemberView>) -> Option<Option<Seq<char>>> {
    match member {
        None => Some(None),
        Some(MemberView::Null) => Some(None),
        Some(MemberView::Text(value)) => Some(Some(text::lowercase(value))),
        Some(_) => None,
    }
}

/// The name of a policy, which is a label only: `default` where the member is
/// not a string.
pub open spec fn member_name(member: Option<MemberView>) -> Seq<char> {
    match member {
        Some(MemberView::Text(value)) => value,
        _ => "default"@,
    }
}

/// What is said of a member that should be a list of strings.
pub open spec fn not_a_list(name: Seq<char>) -> Seq<char> {
    "attestation policy member "@ + name + " must be a list of strings"@
}

/// The measurements that the members of a policy file accept. A member that
/// cannot be read as a restriction is an error, never a weaker policy.
pub open spec fn measurement_of(all: Map<Seq<char>, MemberView>) -> Result<PolicyView, Seq<char>> {
    let mrtd = member_set(json::member_of(all, "allowed_mrtd"@));
    let mrenclave = member_set(json::member_of(all, "allowed_mrenclave"@));
    let mrsigner = member_set(json::member_of(all, "allowed_mrsigner"@));
    let minimum = member_minimum(json::member_of(all, "min_isvsvn"@));
    let hash = member_hash(json::member_of(all, "expected_compose_hash"@));
    if mrtd is None {
        Err(not_a_list("allowed_mrtd"@))
    } else if mrenclave is None {
        Err(not_a_list("allowed_mrenclave"@))
    } else if mrsigner is None {
        Err(not_a_list("allowed_mrsigner"@))
    } else if minimum is None {
        Err("attestation policy member min_isvsvn must be a whole number from 0 to 65535"@)
    } else if hash is None {
        Err("attestation policy member expected_compose_hash must be a string"@)
    } else {
        Ok(
            PolicyView {
                allowed_mrtd: mrtd->0,
                allowed_mrenclave: mrenclave->0,
                allowed_mrsigner: mrsigner->0,
                min_isvsvn: minimum->0,
                expected_compose_hash: hash->0,
            },
        )
    }
}

/// The policy that the members of a policy file spell. A policy that restricts
/// nothing is refused.
pub open spec fn policy_of(all: Map<Seq<char>, MemberView>) -> Result<ClientPolicyView, Seq<char>> {
    match measurement_of(all) {
        Err(reason) => Err(reason),
        Ok(measurement) => if measurement.restricts() {
            Ok(
                ClientPolicyView {
                    policy_name: member_name(json::member_of(all, "policy_name"@)),
                    measurement,
                },
            )
        } else {
            Err("attestation policy must restrict at least one measurement or compose hash"@)
        },
    }
}

/// The policy that a policy file spells.
pub open spec fn policy_from(source: Seq<char>) -> Result<ClientPolicyView, Seq<char>> {
    match json::json_members(source) {
        None => Err("failed to parse policy file (expected JSON)"@),
        Some(all) => policy_of(all),
    }
}

/// Where the policy comes from.
#[derive(Debug)]
pub enum PolicySource {
    /// From the file at this path.
    File(String),
    /// This policy, which restricts the transport only.
    TransportOnly(ClientPolicy),
}

/// What is said of an unset or unreadable variable.
pub open spec fn absence(value: EnvView) -> Seq<char> {
    match value {
        EnvView::Unreadable(problem) => problem,
        _ => "environment variable not found"@,
    }
}

/// Where the policy comes from: from a file where one is named, which has to
/// be where attestation is enforced.
pub open spec fn policy_path(mode: AttestationMode, value: EnvView) -> Result<
    Option<Seq<char>>,
    Seq<char>,
> {
    match value.readable() {
        Some(path) => Ok(Some(path)),
        None => if mode != AttestationMode::Enforced {
            Ok(None)
        } else {
            Err(
                "SECRET_BROKER_CLIENT_POLICY_FILE must be set when attestation is enforced: "@
                    + absence(value),
            )
        },
    }
}

impl ClientPolicy {
    /// Decide where the policy comes from.
    pub fn from_env(mode: AttestationMode, policy_file: &EnvValue) -> (res: Result<
        PolicySource,
        Rejection,
    >)
        ensures
            match res {
                Ok(PolicySource::File(path)) => policy_path(mode, policy_file@) == Ok::<
                    _,
                    Seq<char>,
                >(Some(path@)),
                Ok(PolicySource::TransportOnly(policy)) => {
                    &&& policy_path(mode, policy_file@) == Ok::<Option<Seq<char>>, Seq<char>>(None)
                    &&& policy@ == ClientPolicyView::transport_only()
                },
                Err(rejection) => policy_path(mode, policy_file@) == Err::<Option<Seq<char>>, _>(
                    rejection@,
                ),
            },
    {
        match policy_file {
            EnvValue::Present(path) => Ok(PolicySource::File(path.clone())),
            EnvValue::Unreadable(problem) => Self::without_file(mode, problem.as_str()),
            EnvValue::Absent => Self::without_file(mode, "environment variable not found"),
        }
    }

    fn without_file(mode: AttestationMode, problem: &str) -> (res: Result<PolicySource, Rejection>)
        ensures
            match res {
                Ok(PolicySource::File(path)) => false,
                Ok(PolicySource::TransportOnly(policy)) => {
                    &&& mode != AttestationMode::Enforced
                    &&& policy@ == ClientPolicyView::transport_only()
                },
                Err(rejection) => {
                    &&& mode == AttestationMode::Enforced
                    &&& rejection@
                        == "SECRET_BROKER_CLIENT_POLICY_FILE must be set when attestation is enforced: "@
                        + problem@
                },
            },
    {
        if !mode.is_enforced() {
            Ok(PolicySource::TransportOnly(ClientPolicy::transport_only()))
        } else {
            let reason = text::concat2(
                "SECRET_BROKER_CLIENT_POLICY_FILE must be set when attestation is enforced: ",
                problem,
            );
            Err(rejected(reason.as_str()))
        }
    }

    /// Read a policy from the text of its file.
    pub fn from_file(source: &str) -> (res: Result<Self, Rejection>)
        ensures
            config::answer(res) == policy_from(source@),
    {
        match json::parse_members(source) {
            Some(pairs) => Self::from_members(&pairs),
            None => Err(rejected("failed to parse policy file (expected JSON)")),
        }
    }

    /// Read a policy from the members of its file.
    pub fn from_members(pairs: &Vec<(String, JsonMember)>) -> (res: Result<Self, Rejection>)
        ensures
            config::answer(res) == policy_of(json::members(pairs@)),
    {
        let allowed_mrtd = match Self::string_set(pairs, "allowed_mrtd") {
            Ok(set) => set,
            Err(rejection) => return Err(rejection),
        };
        let allowed_mrenclave = match Self::string_set(pairs, "allowed_mrenclave") {
            Ok(set) => set,
            Err(rejection) => return Err(rejection),
        };
        let allowed_mrsigner = match Self::string_set(pairs, "allowed_mrsigner") {
            Ok(set) => set,
            Err(rejection) => return Err(rejection),
        };
        let min_isvsvn = match json::find_member(pairs, "min_isvsvn") {
            None => None,
            Some(JsonMember::Null) => None,
            Some(JsonMember::Unsigned(value)) if *value <= 65_535 => Some(*value as u16),
            Some(_) => return Err(
                rejected(
                    "attestation policy member min_isvsvn must be a whole number from 0 to 65535",
                ),
            ),
        };
        let expected_compose_hash = match json::find_member(pairs, "expected_compose_hash") {
            None => None,
            Some(JsonMember::Null) => None,
            Some(JsonMember::Text(hash)) => Some(text::to_lowercase(hash.as_str())),
            Some(_) => return Err(
                rejected("attestation policy member expected_compose_hash must be a string"),
            ),
        };
        let measurement = MeasurementPolicy {
            allowed_mrtd,
            allowed_mrenclave,
            allowed_mrsigner,
            min_isvsvn,
            expected_compose_hash,
        };
        if measurement.allowed_mrtd.is_empty() && measurement.allowed_mrenclave.is_empty()
            && measurement.allowed_mrsigner.is_empty()
            && measurement.expected_compose_hash.is_none() {
            return Err(
                rejected(
                    "attestation policy must restrict at least one measurement or compose hash",
                ),
            );
        }
        let policy_name = match json::find_member(pairs, "policy_name") {
            Some(JsonMember::Text(name)) => name.clone(),
            _ => "default".to_owned(),
        };
        Ok(ClientPolicy { policy_name, measurement })
    }

    fn string_set(pairs: &Vec<(String, JsonMember)>, name: &str) -> (res: Result<
        StringSet,
        Rejection,
    >)
        ensures
            match res {
                Ok(set) => member_set(json::member_of(json::members(pairs@), name@)) == Some(set@),
                Err(rejection) => {
                    &&& member_set(json::member_of(json::members(pairs@), name@)) is None
                    &&& rejection@ == not_a_list(name@)
                },
            },
    {
        let set = match json::find_member(pairs, name) {
            None => Some(StringSet::new()),
            Some(JsonMember::Null) => Some(StringSet::new()),
            Some(JsonMember::List(items)) => Self::lower_set(items),
            Some(_) => None,
        };
        match set {
            Some(set) => Ok(set),
            None => {
                let reason = text::concat3(
                    "attestation policy member ",
                    name,
                    " must be a list of strings",
                );
                Err(rejected(reason.as_str()))
            },
        }
    }

    fn lower_set(items: &Vec<Option<String>>) -> (res: Option<StringSet>)
        ensures
            ({
                let all = items@.map_values(|item: Option<String>| text::optional(item));
                match res {
                    Some(set) => (all.len() == 0 || has_string(all)) && set@ == lowered(all),
                    None => all.len() > 0 && !has_string(all),
                }
            }),
    {
        let mut set = StringSet::new();
        let ghost all = items@.map_values(|item: Option<String>| text::optional(item));
        let n: usize = items.len();
        let mut i: usize = 0;
        assert(all.take(0) =~= Seq::empty());
        while i < n
            invariant
                i <= n,
                n == items@.len(),
                all == items@.map_values(|item: Option<String>| text::optional(item)),
                set@ == lowered(all.take(i as int)),
            decreases n - i,
        {
            if let Some(item) = &items[i] {
                set = set.with(text::to_lowercase(item.as_str()));
            }
            i = i + 1;
            assert(all.take(i as int).drop_last() =~= all.take(i - 1));
            assert(all.take(i as int).last() == text::optional(items@[i - 1]));
        }
        assert(all.take(n as int) =~= all);
        proof {
            lemma_lowered_is_empty(all);
        }
        if n > 0 && set.is_empty() {
            None
        } else {
            Some(set)
        }
    }

    /// The policy that restricts the transport only.
    pub fn transport_only() -> (res: Self)
        ensures
            res@ == ClientPolicyView::transport_only(),
    {
        ClientPolicy {
            policy_name: "transport-only".to_owned(),
            measurement: MeasurementPolicy::allow_all(),
        }
    }
}

impl ClientPolicyView {
    /// The policy that restricts the transport only.
    pub open spec fn transport_only() -> ClientPolicyView {
        ClientPolicyView {
            policy_name: "transport-only"@,
            measurement: PolicyView::accepting_all(),
        }
    }
}

/// Whether a list has this value among its strings, in lower case.
pub open spec fn lists_lowered(items: Seq<Option<Seq<char>>>, value: Seq<char>) -> bool {
    exists|i: int|
        0 <= i < items.len() && (#[trigger] items[i]) is Some && text::lowercase(items[i]->0)
            == value
}

proof fn lemma_lowered(items: Seq<Option<Seq<char>>>, value: Seq<char>)
    ensures
        lowered(items).contains(value) <==> lists_lowered(items, value),
    decreases items.len(),
{
    if items.len() > 0 {
        let rest = items.drop_last();
        lemma_lowered(rest, value);
        assert(items[items.len() - 1] == items.last());
        if lists_lowered(rest, value) {
            let i = choose|i: int|
                0 <= i < rest.len() && (#[trigger] rest[i]) is Some && text::lowercase(rest[i]->0)
                    == value;
            assert(items[i] == rest[i]);
        }
        if lists_lowered(items, value) {
            let i = choose|i: int|
                0 <= i < items.len() && (#[trigger] items[i]) is Some && text::lowercase(
                    items[i]->0,
                ) == value;
            if i < rest.len() {
                assert(rest[i] == items[i]);
            }
        }
    }
}

proof fn lemma_lowered_is_empty(items: Seq<Option<Seq<char>>>)
    ensures
        lowered(items) == Set::<Seq<char>>::empty() <==> !has_string(items),
{
    if has_string(items) {
        let i = choose|i: int| 0 <= i < items.len() && (#[trigger] items[i]) is Some;
        lemma_lowered(items, text::lowercase(items[i]->0));
        assert(lowered(items).contains(text::lowercase(items[i]->0)));
    } else {
        assert forall|value: Seq<char>| !lowered(items).contains(value) by {
            lemma_lowered(items, value);
        }
        assert(lowered(items) =~= Set::<Seq<char>>::empty());
    }
}

/// A policy that lists measurements accepts exactly those that read the same
/// as a listed one in lower case. So the case of a measurement makes no
/// difference; of ASCII text, its lower case is accepted where it is itself.
pub proof fn listed_measurements_are_accepted_in_any_case(
    items: Seq<Option<Seq<char>>>,
    value: Seq<char>,
    other: Seq<char>,
)
    requires
        has_string(items),
    ensures
        member_set(Some(MemberView::List(items))) == Some(lowered(items)),
        admits(lowered(items), value) <==> lists_lowered(items, text::lowercase(value)),
        text::lowercase(value) == text::lowercase(other) ==> admits(lowered(items), value)
            == admits(lowered(items), other),
        text::is_ascii_text(value) ==> admits(lowered(items), value) == admits(
            lowered(items),
            text::lowercase(value),
        ),
{
    lemma_lowered_is_empty(items);
    lemma_lowered(items, text::lowercase(value));
    if text::is_ascii_text(value) {
        text::lower_case_is_stable(value);
    }
}

/// No restriction that a policy file holds is dropped or weakened: the accepted
/// policy has each one as it is written, and a file with a member that cannot
/// be read as a restriction is refused.
pub proof fn restrictions_are_taken_as_written(all: Map<Seq<char>, MemberView>)
    requires
        policy_of(all) is Ok,
    ensures
        ({
            let policy = policy_of(all)->Ok_0.measurement;
            &&& as_written(json::member_of(all, "allowed_mrtd"@), policy.allowed_mrtd)
            &&& as_written(json::member_of(all, "allowed_mrenclave"@), policy.allowed_mrenclave)
            &&& as_written(json::member_of(all, "allowed_mrsigner"@), policy.allowed_mrsigner)
            &&& match json::member_of(all, "min_isvsvn"@) {
                Some(MemberView::Unsigned(value)) => policy.min_isvsvn matches Some(minimum)
                    && minimum == value,
                member => policy.min_isvsvn is None && unset(member),
            }
            &&& match json::member_of(all, "expected_compose_hash"@) {
                Some(MemberView::Text(hash)) => policy.expected_compose_hash == Some(
                    text::lowercase(hash),
                ),
                member => policy.expected_compose_hash is None && unset(member),
            }
        }),
{
    lemma_as_written(json::member_of(all, "allowed_mrtd"@));
    lemma_as_written(json::member_of(all, "allowed_mrenclave"@));
    lemma_as_written(json::member_of(all, "allowed_mrsigner"@));
}

/// Whether a member is absent or null.
pub open spec fn unset(member: Option<MemberView>) -> bool {
    member is None || member == Some(MemberView::Null)
}

/// Whether a set holds the strings that a member lists, in lower case, and
/// nothing else; it is empty, and so allows everything, only where the list is.
/// A member that is no list is unset.
pub open spec fn as_written(member: Option<MemberView>, allowed: Set<Seq<char>>) -> bool {
    match member {
        Some(MemberView::List(items)) => {
            &&& items.len() > 0 ==> allowed != Set::<Seq<char>>::empty()
            &&& forall|value: Seq<char>| #[trigger]
                allowed.contains(value) <==> lists_lowered(items, value)
        },
        member => unset(member) && allowed == Set::<Seq<char>>::empty(),
    }
}

proof fn lemma_as_written(member: Option<MemberView>)
    requires
        member_set(member) is Some,
    ensures
        as_written(member, member_set(member)->0),
{
    if let Some(MemberView::List(items)) = member {
        lemma_lowered_is_empty(items);
        assert forall|value: Seq<char>| #[trigger]
            lowered(items).contains(value) <==> lists_lowered(items, value) by {
            lemma_lowered(items, value);
        }
    }
}

/// Every policy that a file spells restricts something.
pub proof fn policies_from_files_restrict(all: Map<Seq<char>, MemberView>)
    ensures
        policy_of(all) matches Ok(policy) ==> policy.measurement.restricts(),
{
}

/// Which database credentials are asked for.
#[derive(Debug, Clone)]
pub struct PostgresCredentialRequest {
    pub audience: String,
    pub scope: Vec<String>,
    pub ttl_seconds: u64,
    pub application_name: Option<String>,
}

/// Database credentials on lease from the broker.
#[derive(Debug, Clone)]
pub struct PostgresCredentialLease {
    pub database_url: String,
    pub username: Option<String>,
    pub password: Option<String>,
    pub expires_at: Option<Timestamp>,
}

/// Each mode is asked for by its own name, in letters of any case and with
/// white space around it, and by no other word.
pub proof fn modes_are_asked_for_by_name(
    key: Seq<char>,
    value: EnvValue,
    default: Seq<char>,
    mode: AttestationMode,
)
    ensures
        mode_from(key, value@, default) == Ok::<_, Seq<char>>(mode) <==> text::ascii_lowercase(
            text::trimmed(
                match value {
                    EnvValue::Present(raw) => raw@,
                    _ => default,
                },
            ),
        ) == text::ascii_lowercase(mode.name_text()),
        mode.name_text() == (match mode {
            AttestationMode::Enforced => "Enforced"@,
            AttestationMode::Disabled => "Disabled"@,
            AttestationMode::Spiffe => "Spiffe"@,
            AttestationMode::Local => "Local"@,
        }),
{
    reveal_strlit("Enforced");
    reveal_strlit("Disabled");
    reveal_strlit("Spiffe");
    reveal_strlit("Local");
    reveal_strlit("enforced");
    reveal_strlit("disabled");
    reveal_strlit("spiffe");
    reveal_strlit("local");
    assert(text::ascii_lowercase("Enforced"@) =~= "enforced"@);
    assert(text::ascii_lowercase("Disabled"@) =~= "disabled"@);
    assert(text::ascii_lowercase("Spiffe"@) =~= "spiffe"@);
    assert(text::ascii_lowercase("Local"@) =~= "local"@);
    assert("enforced"@[0] == 'e' && "disabled"@[0] == 'd' && "spiffe"@[0] == 's' && "local"@[0]
        == 'l');
}

/// An enclave is accepted only where it meets every restriction, and wherever
/// it does: a measurement that is not restricted is no obstacle, and no
/// restriction makes up for another.
pub proof fn enclaves_meet_every_restriction(
    policy: PolicyView,
    mrenclave: Seq<char>,
    mrsigner: Seq<char>,
    isvsvn: u16,
)
    ensures
        policy.admits_sgx(mrenclave, mrsigner, isvsvn) ==> {
            &&& policy.allowed_mrenclave.len() > 0 ==> policy.allowed_mrenclave.contains(
                text::lowercase(mrenclave),
            )
            &&& policy.allowed_mrsigner.len() > 0 ==> policy.allowed_mrsigner.contains(
                text::lowercase(mrsigner),
            )
            &&& policy.min_isvsvn is None || policy.min_isvsvn->0 <= isvsvn
        },
        (policy.allowed_mrenclave.contains(text::lowercase(mrenclave)) || policy.allowed_mrenclave
            =~= Set::empty()) && (policy.allowed_mrsigner.contains(text::lowercase(mrsigner))
            || policy.allowed_mrsigner =~= Set::empty()) && (policy.min_isvsvn is None
            || policy.min_isvsvn->0 <= isvsvn) ==> policy.admits_sgx(mrenclave, mrsigner, isvsvn),
{
}

/// The measurement of a domain is accepted where it is listed or where nothing
/// is, and a compose hash where it is the one that is expected or where none
/// is; the case of the letters makes no difference.
pub proof fn expected_values_are_accepted(policy: PolicyView, value: Seq<char>)
    ensures
        policy.allowed_mrtd.contains(text::lowercase(value)) ==> admits(policy.allowed_mrtd, value),
        policy.allowed_mrtd =~= Set::empty() ==> admits(policy.allowed_mrtd, value),
        policy.allowed_mrtd.len() > 0 && !policy.allowed_mrtd.contains(text::lowercase(value))
            ==> !admits(policy.allowed_mrtd, value),
        policy.expected_compose_hash is None ==> policy.admits_compose_hash(value),
        policy.expected_compose_hash is Some ==> (policy.admits_compose_hash(value)
            <==> policy.expected_compose_hash == Some(text::lowercase(value))),
{
}

/// The policy that accepts everything does, and so does the one that restricts
/// the transport only.
pub proof fn open_policies_accept_everything(
    mrtd: Seq<char>,
    mrenclave: Seq<char>,
    mrsigner: Seq<char>,
    isvsvn: u16,
    compose_hash: Seq<char>,
)
    ensures
        ({
            let policy = PolicyView::accepting_all();
            &&& admits(policy.allowed_mrtd, mrtd)
            &&& policy.admits_sgx(mrenclave, mrsigner, isvsvn)
            &&& policy.admits_compose_hash(compose_hash)
            &&& policy.expected_compose_hash is None
            &&& !policy.restricts()
            &&& ClientPolicyView::transport_only().measurement == policy
        }),
{
}

/// Whether a member can be read as a list of values, or is unset.
pub open spec fn list_or_unset(member: Option<MemberView>) -> bool {
    match member {
        Some(MemberView::List(items)) => items.len() == 0 || exists|i: int|
            0 <= i < items.len() && (#[trigger] items[i]) is Some,
        member => unset(member),
    }
}

/// Whether a member lists a value.
pub open spec fn lists_a_value(member: Option<MemberView>) -> bool {
    match member {
        Some(MemberView::List(items)) => exists|i: int|
            0 <= i < items.len() && (#[trigger] items[i]) is Some,
        _ => false,
    }
}

/// A policy file is accepted exactly where each restriction in it can be read
/// and there is one on a measurement or on the compose hash. The name is taken
/// from the file where it is a text.
pub proof fn readable_policies_are_accepted(all: Map<Seq<char>, MemberView>)
    ensures
        policy_of(all) is Ok <==> {
            &&& list_or_unset(json::member_of(all, "allowed_mrtd"@))
            &&& list_or_unset(json::member_of(all, "allowed_mrenclave"@))
            &&& list_or_unset(json::member_of(all, "allowed_mrsigner"@))
            &&& match json::member_of(all, "min_isvsvn"@) {
                Some(MemberView::Unsigned(value)) => value <= 65_535,
                member => unset(member),
            }
            &&& json::member_of(all, "expected_compose_hash"@) is Some ==> json::member_of(
                all,
                "expected_compose_hash"@,
            )->0 is Text || json::member_of(all, "expected_compose_hash"@)->0 is Null
            &&& {
                ||| lists_a_value(json::member_of(all, "allowed_mrtd"@))
                ||| lists_a_value(json::member_of(all, "allowed_mrenclave"@))
                ||| lists_a_value(json::member_of(all, "allowed_mrsigner"@))
                ||| json::member_of(all, "expected_compose_hash"@) matches Some(
                    MemberView::Text(hash),
                )
            }
        },
        policy_of(all) matches Ok(policy) ==> match json::member_of(all, "policy_name"@) {
            Some(MemberView::Text(name)) => policy.policy_name == name,
            _ => policy.policy_name == "default"@,
        },
{
    lemma_listed(json::member_of(all, "allowed_mrtd"@));
    lemma_listed(json::member_of(all, "allowed_mrenclave"@));
    lemma_listed(json::member_of(all, "allowed_mrsigner"@));
}

proof fn lemma_listed(member: Option<MemberView>)
    ensures
        member_set(member) is Some <==> list_or_unset(member),
        member_set(member) is Some ==> (member_set(member)->0 != Set::<Seq<char>>::empty()
            <==> lists_a_value(member)),
{
    if let Some(MemberView::List(items)) = member {
        lemma_lowered_is_empty(items);
    }
}

/// The policy comes from the file wherever one is named. Without one the
/// transport alone is restricted, which enforced attestation does not allow.
pub proof fn named_policies_are_read(mode: AttestationMode, file: EnvValue)
    ensures
        file matches EnvValue::Present(path) ==> policy_path(mode, file@) == Ok::<_, Seq<char>>(
            Some(path@),
        ),
        !(file is Present) ==> (policy_path(mode, file@) is Err <==> mode is Enforced),
        !(file is Present) && !(mode is Enforced) ==> policy_path(mode, file@) == Ok::<
            Option<Seq<char>>,
            Seq<char>,
        >(None),
{
}

} // verus!
