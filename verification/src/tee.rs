//! Trusted Execution Environment settings and audit records.

use crate::config::{EnvValue, EnvView};
use crate::encoding;
use crate::error;
use crate::error::{configuration_error, DbResult};
use crate::json;
use crate::json::{JsonMember, MemberView};
use crate::pem;
use crate::text;
use crate::time;
use crate::time::Timestamp;
use vstd::prelude::*;

verus! {

/// Where the runtime of the environment is reached, and what its quotes are
/// made over.
#[derive(Debug, Clone)]
pub struct TeeEndpointConfig {
    /// Optional override for the dstack endpoint (unix socket path or HTTP URL).
    pub dstack_endpoint: Option<String>,
    /// Optional override for the tappd endpoint (unix socket path or HTTP URL).
    pub tappd_endpoint: Option<String>,
    /// Optional 64-byte report data supplied to attestation requests.
    report_data: Option<Vec<u8>>,
}

/// The settings, over views.
pub struct TeeView {
    pub dstack_endpoint: Option<Seq<char>>,
    pub tappd_endpoint: Option<Seq<char>>,
    pub report_data: Option<Seq<u8>>,
}

impl View for TeeEndpointConfig {
    type V = TeeView;

    closed spec fn view(&self) -> TeeView {
        TeeView {
            dstack_endpoint: text::optional(self.dstack_endpoint),
            tappd_endpoint: text::optional(self.tappd_endpoint),
            report_data: match self.report_data {
                Some(data) => Some(data@),
                None => None,
            },
        }
    }
}

/// The sixty-four bytes that a text spells, in hexadecimal or else in Base64.
pub open spec fn report_data_of(raw: Seq<char>) -> Option<Seq<u8>> {
    if encoding::hex_value(raw) matches Some(bytes) && bytes.len() == 64 {
        encoding::hex_value(raw)
    } else if encoding::base64_value(raw) matches Some(bytes) && bytes.len() == 64 {
        encoding::base64_value(raw)
    } else {
        None
    }
}

/// The bytes that a quote is made over: those of the settings, or zeros.
pub open spec fn supplied_data(settings: TeeView) -> Seq<u8> {
    match settings.report_data {
        Some(data) => data,
        None => Seq::new(64, |i: int| 0u8),
    }
}

/// What bytes, or the lack of them, hold.
pub open spec fn decoded_data(res: DbResult<Vec<u8>>) -> Result<Seq<u8>, error::ErrorView> {
    match res {
        Ok(bytes) => Ok(bytes@),
        Err(error) => Err(error@),
    }
}

/// Read sixty-four bytes of report data, in hexadecimal or else in Base64.
pub fn decode_report_data(raw: &str) -> (res: DbResult<Vec<u8>>)
    ensures
        decoded_data(res) == (match report_data_of(raw@) {
            Some(bytes) => Ok(bytes),
            None => Err(
                error::configuration("report data must be 64 bytes hex or base64 encoded"@),
            ),
        }),
        res matches Ok(bytes) ==> bytes@.len() == 64,
{
    if let Some(bytes) = encoding::hex_decode(raw) {
        if bytes.len() == 64 {
            return Ok(bytes);
        }
    }
    if let Some(bytes) = encoding::base64_decode(raw) {
        if bytes.len() == 64 {
            return Ok(bytes);
        }
    }
    Err(configuration_error("report data must be 64 bytes hex or base64 encoded"))
}

/// The settings that the environment holds.
pub open spec fn tee_settings(dstack: EnvView, tappd: EnvView, report_data: EnvView) -> Result<
    TeeView,
    error::ErrorView,
> {
    let settings = TeeView {
        dstack_endpoint: dstack.readable(),
        tappd_endpoint: tappd.readable(),
        report_data: None,
    };
    match report_data.readable() {
        None => Ok(settings),
        Some(raw) => match report_data_of(raw) {
            Some(bytes) => Ok(TeeView { report_data: Some(bytes), ..settings }),
            None => Err(
                error::configuration("report data must be 64 bytes hex or base64 encoded"@),
            ),
        },
    }
}

fn owned(value: Option<&str>) -> (res: Option<String>)
    ensures
        text::optional(res) == text::optional_str(value),
{
    match value {
        Some(value) => Some(value.to_owned()),
        None => None,
    }
}

impl Default for TeeEndpointConfig {
    fn default() -> (res: Self)
        ensures
            res@ == (TeeView { dstack_endpoint: None, tappd_endpoint: None, report_data: None }),
            res.wf(),
    {
        TeeEndpointConfig { dstack_endpoint: None, tappd_endpoint: None, report_data: None }
    }
}

impl TeeEndpointConfig {
    /// Report data, where there are any, are sixty-four bytes.
    pub open spec fn wf(self) -> bool {
        self@.report_data matches Some(data) ==> data.len() == 64
    }

    /// Load configuration from `SECURE_DB_DSTACK_ENDPOINT`,
    /// `SECURE_DB_TAPPD_ENDPOINT`, and `SECURE_DB_TEE_REPORT_DATA`.
    pub fn from_env(dstack: &EnvValue, tappd: &EnvValue, report_data: &EnvValue) -> (res: DbResult<
        Self,
    >)
        ensures
            error::outcome(res) == tee_settings(dstack@, tappd@, report_data@),
            res matches Ok(config) ==> config.wf(),
    {
        let report_data = match report_data.get() {
            None => None,
            Some(raw) => match decode_report_data(raw) {
                Ok(bytes) => Some(bytes),
                Err(error) => return Err(error),
            },
        };
        Ok(
            TeeEndpointConfig {
                dstack_endpoint: owned(dstack.get()),
                tappd_endpoint: owned(tappd.get()),
                report_data,
            },
        )
    }

    /// Report data supplied to the quote endpoint (defaults to 64 zero bytes).
    pub fn report_data(&self) -> (res: Vec<u8>)
        ensures
            res@ == supplied_data(self@),
            self.wf() ==> res@.len() == 64,
    {
        match &self.report_data {
            Some(data) => pem::copy_bytes(data.as_slice()),
            None => {
                let zeros: Vec<u8> = vec![0u8; 64];
                assert(zeros@ =~= Seq::new(64, |i: int| 0u8));
                zeros
            },
        }
    }
}

/// Materialised attestation data ready for persistence.
#[derive(Clone, Debug)]
pub struct TeeAttestation {
    pub app_id: String,
    pub instance_id: String,
    pub device_id: String,
    pub compose_hash: String,
    pub key_provider_info: String,
    pub quote: Vec<u8>,
    /// The replayed measurement registers, as JSON text.
    pub rtmr: String,
    /// The event log, as JSON text.
    pub event_log: String,
    pub recorded_at: Timestamp,
}

impl TeeAttestation {
    /// What the audit log says of the attestation: who made it and when, but
    /// not the evidence.
    pub open spec fn audit_members(self) -> Map<Seq<char>, MemberView> {
        Map::empty().insert("app_id"@, MemberView::Text(self.app_id@)).insert(
            "instance_id"@,
            MemberView::Text(self.instance_id@),
        ).insert("device_id"@, MemberView::Text(self.device_id@)).insert(
            "compose_hash"@,
            MemberView::Text(self.compose_hash@),
        ).insert(
            "recorded_at"@,
            MemberView::Text(time::rfc3339(self.recorded_at.seconds, self.recorded_at.nanos)),
        )
    }

    /// Provide a JSON payload suitable for audit logging.
    pub fn as_audit_payload(&self) -> (res: Vec<(String, JsonMember)>)
        requires
            self.recorded_at.wf(),
        ensures
            json::members(res@) == self.audit_members(),
    {
        let mut payload: Vec<(String, JsonMember)> = Vec::new();
        json::push_text(&mut payload, "app_id", self.app_id.as_str().to_owned());
        json::push_text(&mut payload, "instance_id", self.instance_id.as_str().to_owned());
        json::push_text(&mut payload, "device_id", self.device_id.as_str().to_owned());
        json::push_text(&mut payload, "compose_hash", self.compose_hash.as_str().to_owned());
        json::push_text(&mut payload, "recorded_at", time::to_rfc3339(self.recorded_at));
        payload
    }
}

proof fn lemma_padded(bytes: Seq<u8>)
    requires
        bytes.len() % 3 == 1,
    ensures
        encoding::base64_text(bytes).len() > 0,
        encoding::base64_text(bytes).last() == '=',
    decreases bytes.len(),
{
    if bytes.len() > 1 {
        lemma_padded(bytes.skip(3));
    }
}

/// Report data are read back from their text, in hexadecimal as in Base64, and
/// no text stands for any other number of bytes.
pub proof fn report_data_are_read_back(bytes: Seq<u8>, raw: Seq<char>)
    ensures
        bytes.len() == 64 ==> report_data_of(encoding::hex_text(bytes)) == Some(bytes),
        bytes.len() == 64 ==> report_data_of(encoding::base64_text(bytes)) == Some(bytes),
        report_data_of(raw) matches Some(data) ==> {
            &&& data.len() == 64
            &&& encoding::hex_value(raw) == Some(data) || encoding::base64_value(raw) == Some(data)
        },
{
    if bytes.len() == 64 {
        encoding::hex_round_trip(bytes);
        encoding::base64_round_trip(bytes);
        lemma_padded(bytes);
        let text = encoding::base64_text(bytes);
        assert(encoding::hex_digit_value(text[text.len() - 1]) is None);
    }
}

/// Each setting of the environment comes from its own variable. Report data
/// that cannot be read are refused, never left out.
pub proof fn settings_come_from_their_variables(
    dstack: EnvValue,
    tappd: EnvValue,
    report_data: EnvValue,
)
    ensures
        tee_settings(dstack@, tappd@, report_data@) is Err <==> (report_data matches EnvValue::Present(raw)
            && report_data_of(raw@) is None),
        tee_settings(dstack@, tappd@, report_data@) matches Ok(settings) ==> {
            &&& match dstack {
                EnvValue::Present(path) => settings.dstack_endpoint == Some(path@),
                _ => settings.dstack_endpoint is None,
            }
            &&& match tappd {
                EnvValue::Present(path) => settings.tappd_endpoint == Some(path@),
                _ => settings.tappd_endpoint is None,
            }
            &&& match report_data {
                EnvValue::Present(raw) => settings.report_data == report_data_of(raw@),
                _ => settings.report_data is None,
            }
        },
{
}

/// A quote is made over the report data of the settings, and over sixty-four
/// zeros where there are none.
pub proof fn quotes_are_made_over_the_report_data(settings: TeeView)
    ensures
        settings.report_data matches Some(data) ==> supplied_data(settings) == data,
        settings.report_data is None ==> supplied_data(settings).len() == 64 && forall|i: int|
            0 <= i < 64 ==> (#[trigger] supplied_data(settings)[i]) == 0,
{
}

/// The audit log learns these five things of an attestation, each under its own
/// name, and nothing of the evidence.
pub proof fn audits_name_the_attestation(attestation: TeeAttestation, name: Seq<char>)
    ensures
        ({
            let members = attestation.audit_members();
            &&& json::member_of(members, "app_id"@) == Some(
                MemberView::Text(attestation.app_id@),
            )
            &&& json::member_of(members, "instance_id"@) == Some(
                MemberView::Text(attestation.instance_id@),
            )
            &&& json::member_of(members, "device_id"@) == Some(
                MemberView::Text(attestation.device_id@),
            )
            &&& json::member_of(members, "compose_hash"@) == Some(
                MemberView::Text(attestation.compose_hash@),
            )
            &&& json::member_of(members, "recorded_at"@) == Some(
                MemberView::Text(
                    time::rfc3339(attestation.recorded_at.seconds, attestation.recorded_at.nanos),
                ),
            )
            &&& json::member_of(members, name) is Some ==> seq![
                "app_id"@,
                "instance_id"@,
                "device_id"@,
                "compose_hash"@,
                "recorded_at"@,
            ].contains(name)
        }),
{
    reveal_strlit("app_id");
    reveal_strlit("instance_id");
    reveal_strlit("device_id");
    reveal_strlit("compose_hash");
    reveal_strlit("recorded_at");
    assert("app_id"@.len() == 6 && "instance_id"@.len() == 11 && "device_id"@.len() == 9
        && "compose_hash"@.len() == 12 && "recorded_at"@.len() == 11);
    assert("instance_id"@[0] == 'i' && "recorded_at"@[0] == 'r');
    let names = seq![
        "app_id"@,
        "instance_id"@,
        "device_id"@,
        "compose_hash"@,
        "recorded_at"@,
    ];
    assert(names[0] == "app_id"@ && names[1] == "instance_id"@ && names[2] == "device_id"@
        && names[3] == "compose_hash"@ && names[4] == "recorded_at"@);
}

} // verus!
