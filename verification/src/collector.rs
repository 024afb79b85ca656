//! Collectors: the sessions that events belong to, and the script that a
//! page loads to report them.

use crate::event::{opt_text, Timestamp};
use crate::ident::{fresh_id, is_ulid, now_utc};
use vstd::prelude::*;

verus! {

/// One session of one visitor.
#[derive(Debug)]
pub struct Collector {
    pub id: String,
    pub origin: String,
    pub country: String,
    pub city: String,
    pub os: Option<String>,
    pub browser: Option<String>,
    pub timestamp: Timestamp,
}

/// The content of a collector.
pub struct CollectorView {
    pub id: Seq<char>,
    pub origin: Seq<char>,
    pub country: Seq<char>,
    pub city: Seq<char>,
    pub os: Option<Seq<char>>,
    pub browser: Option<Seq<char>>,
    pub timestamp: Timestamp,
}

impl View for Collector {
    type V = CollectorView;

    open spec fn view(&self) -> CollectorView {
        CollectorView {
            id: self.id@,
            origin: self.origin@,
            country: self.country@,
            city: self.city@,
            os: opt_text(self.os),
            browser: opt_text(self.browser),
            timestamp: self.timestamp,
        }
    }
}

/// What a request for a new collector carries in its headers.
#[derive(Debug)]
pub struct CollectorRequest {
    /// The `X-Forwarded-For` header, where it is readable text.
    pub forwarded_for: Option<String>,
    /// The `Origin` header, where it is readable text.
    pub origin: Option<String>,
    /// The `User-Agent` header, where it is readable text.
    pub user_agent: Option<String>,
}

/// The operating system and the browser that a user agent names.
#[derive(Debug)]
pub struct UserAgent {
    pub os: String,
    pub browser: String,
}

/// The content of a parsed user agent.
pub open spec fn agent_text(agent: Option<UserAgent>) -> Option<(Seq<char>, Seq<char>)> {
    match agent {
        Some(a) => Some((a.os@, a.browser@)),
        None => None,
    }
}

/// The operating system and the browser that the `woothee` parser reads
/// out of a user agent text; `None` where it recognises nothing.
pub uninterp spec fn user_agent_of(agent: Seq<char>) -> Option<(Seq<char>, Seq<char>)>;

/// Parses a user agent with `woothee::parser::Parser::parse` and keeps the
/// `os` and `name` fields of what it found.
///
/// Trusted: the result depends on the text alone, so it is named by
/// [`user_agent_of`].
#[verifier::external_body]
pub(crate) fn parse_user_agent(agent: &str) -> (parsed: Option<UserAgent>)
    ensures
        agent_text(parsed) == user_agent_of(agent@),
{
    match woothee::parser::Parser::new().parse(agent) {
        Some(found) => Some(UserAgent { os: found.os.to_string(), browser: found.name.to_string() }),
        None => None,
    }
}

/// The address that the location lookup is made for: the forwarded address,
/// or the unspecified address where the request carries none.
pub fn lookup_address(forwarded_for: &Option<String>) -> (ip: String)
    ensures
        ip@ == match *forwarded_for {
            Some(f) => f@,
            None => "0.0.0.0"@,
        },
{
    match forwarded_for {
        Some(f) => f.clone(),
        None => String::from_str("0.0.0.0"),
    }
}

/// The country and the city of a visitor, given what the location lookup
/// found: each name as found, `Unknown` for a name that the lookup did not
/// find, and `Unknown` for both where the lookup failed.
pub fn location_or_unknown(lookup: Option<(Option<String>, Option<String>)>) -> (place: (
    String,
    String,
))
    ensures
        place.0@ == match lookup {
            Some((Some(country), _)) => country@,
            _ => "Unknown"@,
        },
        place.1@ == match lookup {
            Some((_, Some(city))) => city@,
            _ => "Unknown"@,
        },
{
    match lookup {
        Some((country, city)) => {
            let country = match country {
                Some(name) => name,
                None => String::from_str("Unknown"),
            };
            let city = match city {
                Some(name) => name,
                None => String::from_str("Unknown"),
            };
            (country, city)
        },
        None => (String::from_str("Unknown"), String::from_str("Unknown")),
    }
}

/// The collector of a request, given everything that the outside world
/// contributes: the identifier, the location, the parsed user agent and the
/// time.
pub open spec fn collector_of(
    request: CollectorRequest,
    id: Seq<char>,
    country: Seq<char>,
    city: Seq<char>,
    agent: Option<(Seq<char>, Seq<char>)>,
    timestamp: Timestamp,
) -> CollectorView {
    CollectorView {
        id,
        origin: match request.origin {
            Some(o) => o@,
            None => "unknown"@,
        },
        country,
        city,
        os: match agent {
            Some((os, _)) => Some(os),
            None => None,
        },
        browser: match agent {
            Some((_, browser)) => Some(browser),
            None => None,
        },
        timestamp,
    }
}

/// Builds the collector of a request from the identifier, the location, the
/// parsed user agent and the time that the caller supplies. A request
/// without an origin comes from `unknown`.
pub fn build_collector(
    request: CollectorRequest,
    id: String,
    country: String,
    city: String,
    agent: Option<UserAgent>,
    timestamp: Timestamp,
) -> (collector: Collector)
    ensures
        collector@ == collector_of(request, id@, country@, city@, agent_text(agent), timestamp),
{
    let origin = match request.origin {
        Some(o) => o,
        None => String::from_str("unknown"),
    };
    let (os, browser) = match agent {
        Some(a) => (Some(a.os), Some(a.browser)),
        None => (None, None),
    };
    Collector { id, origin, country, city, os, browser, timestamp }
}

/// Makes the collector of a request: it gets a fresh identifier and the
/// current time, the operating system and browser that its user agent
/// names, if it has one that names any, and the location that the lookup
/// found.
pub fn new_collector(
    request: CollectorRequest,
    lookup: Option<(Option<String>, Option<String>)>,
) -> (collector: Collector)
    ensures
        is_ulid(collector@.id),
        collector@ == collector_of(
            request,
            collector@.id,
            match lookup {
                Some((Some(country), _)) => country@,
                _ => "Unknown"@,
            },
            match lookup {
                Some((_, Some(city))) => city@,
                _ => "Unknown"@,
            },
            match request.user_agent {
                Some(text) => user_agent_of(text@),
                None => None,
            },
            collector@.timestamp,
        ),
{
    let agent = match &request.user_agent {
        Some(text) => parse_user_agent(text.as_str()),
        None => None,
    };
    let (country, city) = location_or_unknown(lookup);
    let id = fresh_id();
    let timestamp = now_utc();
    build_collector(request, id, country, city, agent, timestamp)
}

/// The script up to the collector's identifier.
pub const SCRIPT_HEAD: &'static str = r#""use strict";
(function() {
    var collectorId = ""#;

/// The script between the collector's identifier and the service address.
pub const SCRIPT_MIDDLE: &'static str = r#"";
    var appUrl = ""#;

/// The script after the service address.
pub const SCRIPT_TAIL: &'static str = r#"";

    function init() {
        document.addEventListener('click', function(event) {
            if (event.target.tagName === 'A') {
                var target = event.target.getAttribute('target');
                var href = event.target.getAttribute('href');
                
                if (target === '_blank') {
                    stats_collect('leave', href);
                }
            }
        });

        window.addEventListener("beforeunload", function(event) {
            stats_collect('exit');
        });

        // Listen for history changes
        function wrapHistoryMethod(method) {
            var original = history[method];
            history[method] = function(state, title, url) {
                var fullUrl = new URL(url, window.location.origin).href;
                console.log("📼 history", method, url, fullUrl);
                original.apply(this, arguments);
                stats_collect('visit', fullUrl);
            };
        }
    
        wrapHistoryMethod('pushState');
        wrapHistoryMethod('replaceState');
    
        // Listen for popstate event
        window.addEventListener('popstate', function(event) {
            stats_collect('visit', location.href);
        });
    }

    async function send(type = "pageview", url_override = null, referrer = document.referrer) {
        var url = new URL(appUrl + "/collect");

        url.searchParams.set('collector_id', collectorId);
        url.searchParams.set('name', type);
        url.searchParams.set('url', url_override || window.location.href);
        url.searchParams.set('referrer', referrer);

        fetch(url)
        .then(res => res.json())
        .then(data => {
            // console.log("📼", data);
        })
        .catch(rejected => {
            console.log("📼", "failed to collect");
        });
    }

    async function stats_collect(type, url = null) {
        await send(type, url);
    }

    window.stats_collect = stats_collect;
    stats_collect('enter');

    window.addEventListener('load', function() {
        init();
    });
})();
"#;

/// The text of the script for a collector and a service address.
pub open spec fn analytics_js(cid: Seq<char>, app_url: Seq<char>) -> Seq<char> {
    SCRIPT_HEAD@ + cid + SCRIPT_MIDDLE@ + app_url + SCRIPT_TAIL@
}

/// Writes the script that a page loads to report its events: the fixed
/// text with the collector's identifier and the service address filled in.
pub fn generate_analytics_js(cid: &str, app_url: &str) -> (script: String)
    ensures
        script@ == analytics_js(cid@, app_url@),
{
    String::from_str(SCRIPT_HEAD).concat(cid).concat(SCRIPT_MIDDLE).concat(app_url).concat(
        SCRIPT_TAIL,
    )
}

} // verus!
