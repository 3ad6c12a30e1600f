use vstd::prelude::*;
use crate::text::eq_str;

verus! {

/// The cloud log source a scan reads.
#[derive(Clone, Copy, Debug, PartialEq, Eq, Structural)]
pub enum LogSource {
    Aws,
    Azure,
    All,
}

/// The rule `logsource.service` values that a log source supports.
pub open spec fn services_spec(l: LogSource) -> Seq<Seq<char>> {
    match l {
        LogSource::Aws => seq!["cloudtrail"@],
        LogSource::Azure => seq!["activitylogs"@, "auditlogs"@, "signinlogs"@],
        LogSource::All => seq!["cloudtrail"@, "activitylogs"@, "auditlogs"@, "signinlogs"@],
    }
}

/// The category value an Azure service's events carry; CloudTrail needs none.
pub open spec fn service_category_spec(service: Seq<char>) -> Option<Seq<char>> {
    if service == "activitylogs"@ {
        Some("Administrative"@)
    } else if service == "auditlogs"@ {
        Some("AuditLogs"@)
    } else if service == "signinlogs"@ {
        Some("SignInLogs"@)
    } else {
        None
    }
}

/// Whether an event with the given `category` value belongs to a rule's
/// service: every event for `cloudtrail`, the matching category for the
/// Azure services, nothing for another service or none.
pub open spec fn service_matches_spec(service: Option<Seq<char>>, category: Option<Seq<char>>) -> bool {
    match service {
        None => false,
        Some(s) => if s == "cloudtrail"@ {
            true
        } else {
            match (service_category_spec(s), category) {
                (Some(want), Some(c)) => c == want,
                _ => false,
            }
        },
    }
}

impl LogSource {
    pub open spec fn profile_path_spec(self) -> Seq<char> {
        match self {
            LogSource::Aws => "config/aws_profile.yaml"@,
            LogSource::Azure => "config/azure_profile.yaml"@,
            LogSource::All => ""@,
        }
    }

    /// Where the output profile of the log source lives; empty for `All`,
    /// which has none.
    pub fn profile_path(&self) -> (r: &'static str)
        ensures
            r@ == self.profile_path_spec(),
    {
        match self {
            LogSource::Aws => "config/aws_profile.yaml",
            LogSource::Azure => "config/azure_profile.yaml",
            LogSource::All => "",
        }
    }

    pub fn supported_services(&self) -> (r: Vec<&'static str>)
        ensures
            r@.len() == services_spec(*self).len(),
            forall|i: int| 0 <= i < r@.len() ==> #[trigger] r@[i]@ == services_spec(*self)[i],
    {
        proof {
            reveal_strlit("cloudtrail");
            reveal_strlit("activitylogs");
            reveal_strlit("auditlogs");
            reveal_strlit("signinlogs");
        }
        match self {
            LogSource::Aws => vec!["cloudtrail"],
            LogSource::Azure => vec!["activitylogs", "auditlogs", "signinlogs"],
            LogSource::All => vec!["cloudtrail", "activitylogs", "auditlogs", "signinlogs"],
        }
    }

    /// Whether rules of the given service are active for this log source.
    pub fn supports_service(&self, service: &str) -> (r: bool)
        ensures
            r == services_spec(*self).contains(service@),
    {
        let v = self.supported_services();
        let mut i: usize = 0;
        while i < v.len()
            invariant
                0 <= i <= v@.len(),
                v@.len() == services_spec(*self).len(),
                forall|j: int| 0 <= j < v@.len() ==> #[trigger] v@[j]@ == services_spec(*self)[j],
                forall|j: int| 0 <= j < i ==> services_spec(*self)[j] != service@,
            decreases v@.len() - i,
        {
            if eq_str(v[i], service) {
                assert(services_spec(*self)[i as int] == service@);
                return true;
            }
            i = i + 1;
        }
        false
    }

    pub open spec fn timestamp_field_spec(self) -> Seq<char> {
        match self {
            LogSource::Azure => "time"@,
            _ => "eventTime"@,
        }
    }

    /// The member of a record that holds its timestamp.
    pub fn timestamp_field(&self) -> (r: &'static str)
        ensures
            r@ == self.timestamp_field_spec(),
    {
        match self {
            LogSource::Azure => "time",
            _ => "eventTime",
        }
    }
}

/// See [`service_matches_spec`].
pub fn service_matches(service: &Option<String>, category: &Option<String>) -> (r: bool)
    ensures
        r == service_matches_spec(crate::rule::opt_str(*service), crate::rule::opt_str(*category)),
{
    proof {
        reveal_strlit("cloudtrail");
        reveal_strlit("activitylogs");
        reveal_strlit("auditlogs");
        reveal_strlit("signinlogs");
        reveal_strlit("Administrative");
        reveal_strlit("AuditLogs");
        reveal_strlit("SignInLogs");
    }
    let s = match service {
        None => return false,
        Some(s) => s.as_str(),
    };
    if eq_str(s, "cloudtrail") {
        return true;
    }
    let want = if eq_str(s, "activitylogs") {
        "Administrative"
    } else if eq_str(s, "auditlogs") {
        "AuditLogs"
    } else if eq_str(s, "signinlogs") {
        "SignInLogs"
    } else {
        return false;
    };
    match category {
        Some(c) => eq_str(c.as_str(), want),
        None => false,
    }
}

/// Whether an event belongs to a rule's service, judged by the event's
/// `category` member.
pub fn is_match_service(service: &Option<String>, event: &sigma_rust::Event) -> bool {
    let category = crate::rules::event_field(event, "category");
    service_matches(service, &category)
}

} // verus!
