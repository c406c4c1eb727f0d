//! Twitter-like snowflake identifiers: 37 bits of timestamp, 12 bits of
//! cluster identifier, 15 bits of incremental counter, packed into a `u64`
//! from high to low in that order.

use vstd::prelude::*;

use crate::graphql::error::{ClientFault, GraphQLError};
use crate::parse::{parse_u64, spec_parse_u64};

verus! {

/// The epoch this project's snowflakes count milliseconds from.
/// With 37 bits for the timestamp there is no year-2038 concern; this is
/// just a time mark of the project's own: 2023/04/08 00:00:00 JST —
/// 2023 the year the project started, 04/08 a day picked at random.
pub const MOMOKA_EPOCH: u64 = 1680879600000;

/// Number of bits used for storing the timestamp in a snowflake.
pub const TIMESTAMP_SIZE: u8 = 37;

/// Number of bits used for storing the cluster identifier.
pub const CLUSTER_SIZE: u8 = 12;

/// Number of bits used for the incremental value of a bulk generation.
pub const INC_SIZE: u8 = 15;

/// A snowflake identifier.
#[derive(Debug, Clone, Copy, PartialEq, Eq, Structural)]
pub struct Snowflake(pub u64);

/// The milliseconds-since-[`MOMOKA_EPOCH`] field of a packed snowflake,
/// shifted back down and re-based onto the epoch.
pub open spec fn spec_timestamp(v: u64) -> u64 {
    ((v >> 27) + MOMOKA_EPOCH) as u64
}

/// The cluster identifier field of a packed snowflake: the low 27 bits with
/// the incremental value shifted away.
pub open spec fn spec_cluster_id(v: u64) -> u16 {
    (((v & 0x7FF_FFFFu64) >> 15) as u16)
}

/// The incremental field of a packed snowflake: its low 15 bits.
pub open spec fn spec_inc(v: u64) -> u16 {
    ((v & 0x7FFFu64) as u16)
}

/// Relies on std::time::SystemTime::now and duration_since(UNIX_EPOCH): the
/// milliseconds of the system clock since the Unix epoch, or nothing if the
/// clock reads before it.
#[verifier::external_body]
fn unix_millis() -> (r: Option<u64>)
{
    std::time::SystemTime::now().duration_since(std::time::UNIX_EPOCH).ok().map(
        |d| d.as_millis() as u64,
    )
}

/// Milliseconds since [`MOMOKA_EPOCH`]; zero on a clock that reads earlier
/// than the epoch.
fn now() -> u64 {
    match unix_millis() {
        Some(t) => if t >= MOMOKA_EPOCH {
            t - MOMOKA_EPOCH
        } else {
            0
        },
        None => 0,
    }
}

/// The cluster identifier this process generates snowflakes under.
pub fn cluster_id() -> (r: u16)
    ensures
        r == 0,
{
    0
}

/// Packing a timestamp, a small cluster identifier and a small incremental
/// value yields a word from which the two small fields read back exactly.
proof fn lemma_snowflake_fields(t: u64, cluster: u16, inc: u16)
    requires
        cluster < 0x1000,
        inc < 0x8000,
    ensures
        spec_cluster_id((t << 27) | ((cluster as u64) << 15) | (inc as u64)) == cluster,
        spec_inc((t << 27) | ((cluster as u64) << 15) | (inc as u64)) == inc,
{
    assert((((((t << 27) | ((cluster as u64) << 15) | (inc as u64)) & 0x7FF_FFFFu64) >> 15) as u16)
        == cluster) by (bit_vector)
        requires
            cluster < 0x1000,
            inc < 0x8000,
    ;
    assert(((((t << 27) | ((cluster as u64) << 15) | (inc as u64)) & 0x7FFFu64) as u16) == inc)
        by (bit_vector)
        requires
            cluster < 0x1000,
            inc < 0x8000,
    ;
}

impl Snowflake {
    /// Create a snowflake from a cluster identifier and an incremental
    /// value; both must already fit their fields.
    fn with_cluster_and_inc_id(cluster: u16, inc: u16) -> (r: Snowflake)
        requires
            cluster < 0x1000,
            inc < 0x8000,
        ensures
            spec_cluster_id(r.0) == cluster,
            spec_inc(r.0) == inc,
    {
        let t = now();
        proof {
            lemma_snowflake_fields(t, cluster, inc);
        }
        Snowflake((t << 27) | ((cluster as u64) << 15) | (inc as u64))
    }

    /// Generate snowflakes in bulk with a specific cluster identifier: one
    /// per incremental value `0, 1, ..., count - 1`, in that order.
    pub fn generate_with_cluster_id(cluster: u16, count: u16) -> (r: Result<Vec<Snowflake>, String>)
        ensures
            cluster >= 0x1000 ==> r is Err && r->Err_0@
                == "cluster id must not be using more than 12 bits."@,
            cluster < 0x1000 && count >= 0x8000 ==> r is Err && r->Err_0@
                == "requested amount of snowflake must not be a number that using more than 15 bits."@,
            cluster < 0x1000 && count < 0x8000 ==> r is Ok && r->Ok_0@.len() == count && forall|
                j: int,
            |
                0 <= j < count ==> spec_cluster_id(#[trigger] r->Ok_0@[j].0) == cluster && spec_inc(
                    r->Ok_0@[j].0,
                ) == j,
    {
        proof {
            assert((cluster >> 12u16) == 0 <==> cluster < 0x1000) by (bit_vector);
            assert((count >> 15u16) == 0 <==> count < 0x8000) by (bit_vector);
        }
        if cluster >> 12 > 0 {
            return Err("cluster id must not be using more than 12 bits.".to_owned());
        }
        if count >> 15 > 0 {
            return Err(
                "requested amount of snowflake must not be a number that using more than 15 bits.".to_owned(),
            );
        }
        let mut out: Vec<Snowflake> = Vec::new();
        let mut inc: u16 = 0;
        while inc < count
            invariant
                cluster < 0x1000,
                count < 0x8000,
                inc <= count,
                out@.len() == inc,
                forall|j: int|
                    0 <= j < inc ==> spec_cluster_id(#[trigger] out@[j].0) == cluster && spec_inc(
                        out@[j].0,
                    ) == j,
            decreases count - inc,
        {
            out.push(Self::with_cluster_and_inc_id(cluster, inc));
            inc = inc + 1;
        }
        Ok(out)
    }

    /// Generate snowflakes in bulk with the default cluster identifier.
    pub fn generate(count: u16) -> (r: Result<Vec<Snowflake>, String>)
        ensures
            count >= 0x8000 ==> r is Err && r->Err_0@
                == "requested amount of snowflake must not be a number that using more than 15 bits."@,
            count < 0x8000 ==> r is Ok && r->Ok_0@.len() == count && forall|j: int|
                0 <= j < count ==> spec_cluster_id(#[trigger] r->Ok_0@[j].0) == 0 && spec_inc(
                    r->Ok_0@[j].0,
                ) == j,
    {
        Self::generate_with_cluster_id(cluster_id(), count)
    }

    /// Generate a single snowflake with a specific cluster identifier.
    pub fn with_cluster_id(cluster: u16) -> (r: Result<Snowflake, String>)
        ensures
            cluster >= 0x1000 ==> r is Err && r->Err_0@
                == "cluster id must not be using more than 12 bits."@,
            cluster < 0x1000 ==> r is Ok && spec_cluster_id(r->Ok_0.0) == cluster && spec_inc(
                r->Ok_0.0,
            ) == 0,
    {
        proof {
            assert((cluster >> 12u16) == 0 <==> cluster < 0x1000) by (bit_vector);
        }
        if cluster >> 12 > 0 {
            return Err("cluster id must not be using more than 12 bits.".to_owned());
        }
        Ok(Self::with_cluster_and_inc_id(cluster, 0))
    }

    /// Generate a single snowflake with the default cluster identifier.
    pub fn new() -> (r: Snowflake)
        ensures
            spec_cluster_id(r.0) == 0,
            spec_inc(r.0) == 0,
    {
        Self::with_cluster_id(cluster_id()).unwrap()
    }

    /// The timestamp of this snowflake, in milliseconds since the Unix
    /// epoch.
    pub fn timestamp(&self) -> (r: u64)
        ensures
            r == spec_timestamp(self.0),
            r >= MOMOKA_EPOCH,
    {
        let v = self.0;
        proof {
            assert((v >> 27) <= 0x1F_FFFF_FFFFu64) by (bit_vector);
        }
        (v >> 27) + MOMOKA_EPOCH
    }

    /// The cluster identifier of this snowflake.
    pub fn cluster_id(&self) -> (r: u16)
        ensures
            r == spec_cluster_id(self.0),
    {
        let v = self.0;
        proof {
            assert(((v & 0x7FF_FFFFu64) >> 15) <= 0xFFFu64) by (bit_vector);
        }
        ((v & 0x7FF_FFFF) >> 15) as u16
    }

    /// The incremental value of this snowflake.
    pub fn inc(&self) -> (r: u16)
        ensures
            r == spec_inc(self.0),
    {
        let v = self.0;
        proof {
            assert((v & 0x7FFFu64) <= 0x7FFFu64) by (bit_vector);
        }
        (v & 0x7FFF) as u16
    }
}

/// Convert a client-supplied string value back into a snowflake: the input
/// arrives as an optional string, since the wire format has no 64-bit
/// integers.
pub fn from_input_value(value: Option<&str>) -> (r: Result<Snowflake, GraphQLError>)
    ensures
        value is None ==> r == Err::<Snowflake, GraphQLError>(
            GraphQLError::ClientFault(ClientFault::MustNotEmpty()),
        ),
        value matches Some(s) ==> match spec_parse_u64(s@) {
            Some(v) => r matches Ok(f) && f.0 == v,
            None => r matches Err(GraphQLError::ClientFault(ClientFault::InvalidInteger(m)))
                && m@ == s@,
        },
{
    let snowflake_str = match value {
        None => {
            return Err(GraphQLError::ClientFault(ClientFault::MustNotEmpty()));
        },
        Some(snowflake_str) => snowflake_str,
    };
    match parse_u64(snowflake_str) {
        None => Err(
            GraphQLError::ClientFault(ClientFault::InvalidInteger(snowflake_str.to_owned())),
        ),
        Some(snowflake) => Ok(Snowflake(snowflake)),
    }
}

} // verus!
