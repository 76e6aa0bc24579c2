//! Notification decisions: which anomalies become notifications on a
//! polling tick and what they say, how channels are configured, and where
//! an ntfy message is posted.

use crate::domain::{
    opt_view, Anomaly, AnomalyFilter, MetricType, Notification, NotificationChannel, TimeRange,
};
use vstd::prelude::*;

verus! {

/// The most anomaly notifications one polling tick sends.
pub const MAX_ANOMALIES_PER_TICK: usize = 50;

/// A lower-case hexadecimal digit.
pub open spec fn is_lower_hex(c: char) -> bool {
    ('0' <= c && c <= '9') || ('a' <= c && c <= 'f')
}

/// The hyphenated lower-case text of a version 4 (random) UUID: 36
/// characters, hyphens at positions 8, 13, 18 and 23, hexadecimal digits
/// elsewhere, the version digit `4` at position 14 and a variant digit of
/// `8`, `9`, `a` or `b` at position 19.
pub open spec fn is_v4_uuid_text(s: Seq<char>) -> bool {
    &&& s.len() == 36
    &&& forall|i: int|
        0 <= i < 36 ==> if i == 8 || i == 13 || i == 18 || i == 23 {
            s[i] == '-'
        } else {
            is_lower_hex(#[trigger] s[i])
        }
    &&& s[14] == '4'
    &&& (s[19] == '8' || s[19] == '9' || s[19] == 'a' || s[19] == 'b')
}

/// A fresh random notification id: `uuid::Uuid::new_v4` rendered with
/// `to_string`, which writes the hyphenated lower-case form. The random
/// digits themselves are not stated.
#[verifier::external_body]
fn new_notification_id() -> (id: String)
    ensures
        is_v4_uuid_text(id@),
{
    uuid::Uuid::new_v4().to_string()
}

/// The debug name of a metric type, as shown in notification titles.
pub open spec fn metric_type_label(t: MetricType) -> Seq<char> {
    match t {
        MetricType::CpuUsage => "CpuUsage"@,
        MetricType::MemoryUsage => "MemoryUsage"@,
        MetricType::NetworkIn => "NetworkIn"@,
        MetricType::NetworkOut => "NetworkOut"@,
        MetricType::DiskRead => "DiskRead"@,
        MetricType::DiskWrite => "DiskWrite"@,
    }
}

fn metric_type_label_str(t: MetricType) -> (s: &'static str)
    ensures
        s@ == metric_type_label(t),
{
    match t {
        MetricType::CpuUsage => "CpuUsage",
        MetricType::MemoryUsage => "MemoryUsage",
        MetricType::NetworkIn => "NetworkIn",
        MetricType::NetworkOut => "NetworkOut",
        MetricType::DiskRead => "DiskRead",
        MetricType::DiskWrite => "DiskWrite",
    }
}

/// The filter of one polling tick: anomalies detected from the previous
/// check up to `now`, with no other constraint.
pub fn anomaly_window(last_check: i64, now: i64) -> (f: AnomalyFilter)
    ensures
        f.time_range == Some(TimeRange { start_ms: last_check, end_ms: now }),
        f.cluster_id.is_none(),
        f.resource_id.is_none(),
        f.metric_type.is_none(),
        f.severity.is_none(),
        f.limit.is_none(),
{
    AnomalyFilter {
        cluster_id: None,
        resource_id: None,
        metric_type: None,
        severity: None,
        time_range: Some(TimeRange { start_ms: last_check, end_ms: now }),
        limit: None,
    }
}

/// `n` is the notification sent at `now` for anomaly `a`.
pub open spec fn announces<P>(n: Notification, a: Anomaly<P>, now: i64) -> bool {
    &&& n.title@ == "Anomaly Detected: "@ + metric_type_label(a.metric_type)
    &&& n.message@ == a.description@
    &&& n.severity == a.severity
    &&& n.timestamp == now
    &&& !n.read
    &&& n.link.is_none()
    &&& opt_view(n.cluster_id) == Some(a.cluster_id@)
    &&& opt_view(n.resource_id) == Some(a.resource_id@)
    &&& is_v4_uuid_text(n.id@)
}

/// The notifications of one polling tick at `now`: one per anomaly, in
/// order, for at most the first `MAX_ANOMALIES_PER_TICK` anomalies.
pub fn anomaly_notifications<P>(anomalies: &Vec<Anomaly<P>>, now: i64) -> (r: Vec<Notification>)
    ensures
        r@.len() == if anomalies@.len() > MAX_ANOMALIES_PER_TICK {
            MAX_ANOMALIES_PER_TICK as int
        } else {
            anomalies@.len() as int
        },
        forall|i: int| 0 <= i < r@.len() ==> announces(#[trigger] r@[i], anomalies@[i], now),
{
    let n = if anomalies.len() > MAX_ANOMALIES_PER_TICK {
        MAX_ANOMALIES_PER_TICK
    } else {
        anomalies.len()
    };
    let mut r: Vec<Notification> = Vec::new();
    let mut i: usize = 0;
    while i < n
        invariant
            0 <= i <= n,
            n <= anomalies@.len(),
            n == if anomalies@.len() > MAX_ANOMALIES_PER_TICK {
                MAX_ANOMALIES_PER_TICK as int
            } else {
                anomalies@.len() as int
            },
            r@.len() == i,
            forall|j: int| 0 <= j < i ==> announces(#[trigger] r@[j], anomalies@[j], now),
        decreases n - i,
    {
        let a = &anomalies[i];
        let mut title = "Anomaly Detected: ".to_owned();
        title.append(metric_type_label_str(a.metric_type));
        let note = Notification {
            id: new_notification_id(),
            title,
            message: a.description.clone(),
            severity: a.severity,
            timestamp: now,
            read: false,
            link: None,
            cluster_id: Some(a.cluster_id.clone()),
            resource_id: Some(a.resource_id.clone()),
        };
        r.push(note);
        i = i + 1;
    }
    r
}

/// Position of the first channel with id `id`, if any.
pub open spec fn channel_position(s: Seq<NotificationChannel>, id: Seq<char>) -> Option<int>
    decreases s.len(),
{
    if s.len() == 0 {
        None
    } else if s[0].id@ == id {
        Some(0)
    } else {
        match channel_position(s.drop_first(), id) {
            Some(i) => Some(i + 1),
            None => None,
        }
    }
}

proof fn lemma_channel_position(s: Seq<NotificationChannel>, id: Seq<char>, i: int)
    requires
        0 <= i < s.len(),
        s[i].id@ == id,
        forall|k: int| 0 <= k < i ==> s[k].id@ != id,
    ensures
        channel_position(s, id) == Some(i),
    decreases i,
{
    if i > 0 {
        lemma_channel_position(s.drop_first(), id, i - 1);
    }
}

proof fn lemma_no_channel(s: Seq<NotificationChannel>, id: Seq<char>)
    requires
        forall|k: int| 0 <= k < s.len() ==> s[k].id@ != id,
    ensures
        channel_position(s, id).is_none(),
    decreases s.len(),
{
    if s.len() > 0 {
        lemma_no_channel(s.drop_first(), id);
    }
}

/// The channels after configuring `channel`: the first one with its id is
/// replaced, or it is added at the end.
pub open spec fn configured(s: Seq<NotificationChannel>, channel: NotificationChannel) -> Seq<NotificationChannel> {
    match channel_position(s, channel.id@) {
        Some(i) => s.update(i, channel),
        None => s.push(channel),
    }
}

proof fn lemma_channel_position_spec(s: Seq<NotificationChannel>, id: Seq<char>)
    ensures
        match channel_position(s, id) {
            Some(i) => 0 <= i < s.len() && s[i].id@ == id && forall|k: int|
                0 <= k < i ==> s[k].id@ != id,
            None => forall|k: int| 0 <= k < s.len() ==> s[k].id@ != id,
        },
    decreases s.len(),
{
    if s.len() > 0 {
        lemma_channel_position_spec(s.drop_first(), id);
        if s[0].id@ != id {
            assert forall|k: int| 0 < k < s.len() implies s[k] == s.drop_first()[k - 1] by {}
        }
    }
}

/// Configuring the same channel twice leaves the channels as configuring it
/// once does.
pub proof fn lemma_configure_channel_idempotent(s: Seq<NotificationChannel>, channel: NotificationChannel)
    ensures
        configured(configured(s, channel), channel) == configured(s, channel),
{
    lemma_channel_position_spec(s, channel.id@);
    let t = configured(s, channel);
    match channel_position(s, channel.id@) {
        Some(i) => {
            assert forall|k: int| 0 <= k < i implies t[k].id@ != channel.id@ by {}
            lemma_channel_position(t, channel.id@, i);
            assert(t.update(i, channel) =~= t);
        },
        None => {
            let n = s.len() as int;
            assert forall|k: int| 0 <= k < n implies t[k].id@ != channel.id@ by {}
            lemma_channel_position(t, channel.id@, n);
            assert(t.update(n, channel) =~= t);
        },
    }
}

/// Adds `channel`, or replaces the first configured channel with the same id.
pub fn configure_channel(channels: &mut Vec<NotificationChannel>, channel: NotificationChannel)
    ensures
        final(channels)@ == configured(old(channels)@, channel),
{
    let mut k: usize = 0;
    while k < channels.len()
        invariant
            0 <= k <= channels.len(),
            channels@ == old(channels)@,
            forall|j: int| 0 <= j < k ==> channels@[j].id@ != channel.id@,
        decreases channels.len() - k,
    {
        if channels[k].id == channel.id {
            proof { lemma_channel_position(channels@, channel.id@, k as int); }
            channels.set(k, channel);
            return;
        }
        k = k + 1;
    }
    proof { lemma_no_channel(channels@, channel.id@); }
    channels.push(channel);
}

/// `s` without its trailing slashes.
pub open spec fn trim_trailing_slashes(s: Seq<char>) -> Seq<char>
    decreases s.len(),
{
    if s.len() > 0 && s.last() == '/' {
        trim_trailing_slashes(s.drop_last())
    } else {
        s
    }
}

proof fn lemma_trim_prefix(s: Seq<char>, n: int)
    requires
        0 <= n <= s.len(),
        forall|k: int| n <= k < s.len() ==> s[k] == '/',
    ensures
        trim_trailing_slashes(s) == trim_trailing_slashes(s.take(n)),
    decreases s.len() - n,
{
    if n < s.len() {
        assert(s.drop_last().take(n) =~= s.take(n));
        lemma_trim_prefix(s.drop_last(), n);
    } else {
        assert(s.take(n) =~= s);
    }
}

/// The address an ntfy message is posted to: the server URL without
/// trailing slashes, a slash, and the topic.
pub fn ntfy_url(url: &str, topic: &str) -> (r: String)
    ensures
        r@ == trim_trailing_slashes(url@) + "/"@ + topic@,
{
    let mut n = url.unicode_len();
    while n > 0 && url.get_char(n - 1) == '/'
        invariant
            0 <= n <= url@.len(),
            forall|k: int| n <= k < url@.len() ==> url@[k] == '/',
        decreases n,
    {
        n = n - 1;
    }
    proof {
        lemma_trim_prefix(url@, n as int);
        let t = url@.take(n as int);
        assert(t.len() == 0 || t.last() != '/');
    }
    let mut r = url.substring_char(0, n).to_owned();
    proof {
        assert(url@.subrange(0, n as int) =~= url@.take(n as int));
    }
    r.append("/");
    r.append(topic);
    r
}

/// Configuring a channel replaces the first channel with the same id, in
/// place, or adds it at the end when none has that id; every other channel
/// stays where it was.
pub proof fn lemma_configure_channel_law(s: Seq<NotificationChannel>, channel: NotificationChannel)
    ensures
        ({
            let t = configured(s, channel);
            &&& (exists|k: int| 0 <= k < s.len() && #[trigger] s[k].id@ == channel.id@) ==> ({
                &&& t.len() == s.len()
                &&& exists|i: int|
                    0 <= i < s.len() && #[trigger] s[i].id@ == channel.id@ && t[i] == channel && (forall|k: int|
                        0 <= k < i ==> #[trigger] s[k].id@ != channel.id@) && (forall|k: int|
                        0 <= k < s.len() && k != i ==> #[trigger] t[k] == s[k])
            })
            &&& (forall|k: int| 0 <= k < s.len() ==> #[trigger] s[k].id@ != channel.id@) ==> t == s.push(channel)
        }),
{
    lemma_channel_position_spec(s, channel.id@);
    if let Some(i) = channel_position(s, channel.id@) {
        assert(s[i].id@ == channel.id@);
    }
}

/// Trimming trailing slashes keeps a prefix of the address that does not
/// end in a slash and drops only slashes.
pub proof fn lemma_trim_trailing_slashes(s: Seq<char>)
    ensures
        trim_trailing_slashes(s).len() <= s.len(),
        trim_trailing_slashes(s) == s.take(trim_trailing_slashes(s).len() as int),
        trim_trailing_slashes(s).len() > 0 ==> trim_trailing_slashes(s).last() != '/',
        forall|k: int| trim_trailing_slashes(s).len() <= k < s.len() ==> #[trigger] s[k] == '/',
    decreases s.len(),
{
    if s.len() > 0 && s.last() == '/' {
        lemma_trim_trailing_slashes(s.drop_last());
        let t = trim_trailing_slashes(s);
        assert(s.drop_last().take(t.len() as int) =~= s.take(t.len() as int));
        assert forall|k: int| t.len() <= k < s.len() implies #[trigger] s[k] == '/' by {
            if k < s.len() - 1 {
                assert(s[k] == s.drop_last()[k]);
            }
        }
    } else {
        assert(s.take(s.len() as int) =~= s);
    }
}

} // verus!
