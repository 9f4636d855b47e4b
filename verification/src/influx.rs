//! InfluxDB v2 line-protocol framing of transfer measurements.
use vstd::prelude::*;

use crate::status::Direction;
use crate::text::{push_signed_decimal, push_str, signed_decimal, string_from};

verus! {

/// Where and how measurements are written.
pub struct InfluxConfig {
    pub url: String,
    pub token: String,
    pub org: String,
    pub bucket: String,
}

/// The tag value naming a direction.
pub open spec fn direction_tag_spec(d: Direction) -> Seq<char> {
    match d {
        Direction::Up => "upload"@,
        Direction::Down => "download"@,
    }
}

/// `{prefix}{value}` for an optional tag that is present, else nothing.
pub open spec fn optional_tag(prefix: Seq<char>, value: Option<Seq<char>>) -> Seq<char> {
    match value {
        Some(v) => prefix + v,
        None => seq![],
    }
}

/// The measurement name and tags of a point:
/// `s3_transfer,instance=…,provider=…,direction=…,region=…[,geo=…][,zone=…]`.
pub open spec fn tags_spec(
    instance: Seq<char>,
    provider: Seq<char>,
    direction: Direction,
    region: Seq<char>,
    geo: Option<Seq<char>>,
    zone: Option<Seq<char>>,
) -> Seq<char> {
    "s3_transfer,instance="@ + instance + ",provider="@ + provider + ",direction="@
        + direction_tag_spec(direction) + ",region="@ + region + optional_tag(",geo="@, geo)
        + optional_tag(",zone="@, zone)
}

pub open spec fn opt_view(o: Option<&str>) -> Option<Seq<char>> {
    match o {
        Some(s) => Some(s@),
        None => None,
    }
}

impl InfluxConfig {
    /// The write endpoint:
    /// `{url}/api/v2/write?org={org}&bucket={bucket}&precision=ns`.
    pub fn write_url(&self) -> (s: String)
        ensures
            s@ == self.url@ + "/api/v2/write?org="@ + self.org@ + "&bucket="@ + self.bucket@
                + "&precision=ns"@,
    {
        let mut s = self.url.clone();
        push_str(&mut s, "/api/v2/write?org=");
        push_str(&mut s, self.org.as_str());
        push_str(&mut s, "&bucket=");
        push_str(&mut s, self.bucket.as_str());
        push_str(&mut s, "&precision=ns");
        s
    }

    /// The `Authorization` header value: `Token {token}`.
    pub fn auth_header(&self) -> (s: String)
        ensures
            s@ == "Token "@ + self.token@,
    {
        let mut s = string_from("Token ");
        push_str(&mut s, self.token.as_str());
        s
    }
}

/// The tag value naming a direction: `upload` or `download`.
pub fn direction_tag(d: Direction) -> (s: &'static str)
    ensures
        s@ == direction_tag_spec(d),
{
    match d {
        Direction::Up => "upload",
        Direction::Down => "download",
    }
}

/// The measurement name and tags of a point.
pub fn line_protocol_tags(
    instance: &str,
    provider: &str,
    direction: Direction,
    region: &str,
    geo: Option<&str>,
    zone: Option<&str>,
) -> (s: String)
    ensures
        s@ == tags_spec(instance@, provider@, direction, region@, opt_view(geo), opt_view(zone)),
{
    let mut s = string_from("s3_transfer,instance=");
    push_str(&mut s, instance);
    push_str(&mut s, ",provider=");
    push_str(&mut s, provider);
    push_str(&mut s, ",direction=");
    push_str(&mut s, direction_tag(direction));
    push_str(&mut s, ",region=");
    push_str(&mut s, region);
    let ghost base = s@;
    if let Some(g) = geo {
        push_str(&mut s, ",geo=");
        push_str(&mut s, g);
    }
    let ghost with_geo = s@;
    assert(with_geo =~= base + optional_tag(",geo="@, opt_view(geo)));
    if let Some(z) = zone {
        push_str(&mut s, ",zone=");
        push_str(&mut s, z);
    }
    assert(s@ =~= with_geo + optional_tag(",zone="@, opt_view(zone)));
    s
}

/// A complete point: `{tags} {fields} {timestamp}`, the timestamp in
/// nanoseconds.
pub fn assemble_line(tags: &str, fields: &str, ts_ns: i64) -> (s: String)
    ensures
        s@ == tags@ + " "@ + fields@ + " "@ + signed_decimal(ts_ns as int),
{
    let mut s = string_from(tags);
    push_str(&mut s, " ");
    push_str(&mut s, fields);
    push_str(&mut s, " ");
    push_signed_decimal(&mut s, ts_ns);
    s
}

/// The optional tags are independent: a geo tag `,geo={g}` follows the region
/// whenever a geo is given, whether or not a zone is, and a zone tag
/// `,zone={z}` ends the tags whenever a zone is given, whether or not a geo is.
pub proof fn lemma_optional_tags_independent(
    instance: Seq<char>,
    provider: Seq<char>,
    direction: Direction,
    region: Seq<char>,
    g: Seq<char>,
    z: Seq<char>,
)
    ensures
        ({
            let base = tags_spec(instance, provider, direction, region, None, None);
            &&& base == "s3_transfer,instance="@ + instance + ",provider="@ + provider
                + ",direction="@ + direction_tag_spec(direction) + ",region="@ + region
            &&& tags_spec(instance, provider, direction, region, Some(g), None) == base + ",geo="@
                + g
            &&& tags_spec(instance, provider, direction, region, None, Some(z)) == base
                + ",zone="@ + z
            &&& tags_spec(instance, provider, direction, region, Some(g), Some(z)) == base
                + ",geo="@ + g + ",zone="@ + z
        }),
{
    let base = tags_spec(instance, provider, direction, region, None, None);
    let head = "s3_transfer,instance="@ + instance + ",provider="@ + provider + ",direction="@
        + direction_tag_spec(direction) + ",region="@ + region;
    assert(base =~= head);
    assert(tags_spec(instance, provider, direction, region, Some(g), None) =~= base + ",geo="@ + g);
    assert(tags_spec(instance, provider, direction, region, None, Some(z)) =~= base + ",zone="@
        + z);
    assert(tags_spec(instance, provider, direction, region, Some(g), Some(z)) =~= base + ",geo="@
        + g + ",zone="@ + z);
}

} // verus!
