//! The mount table: fixed-column lines decoded into
//! (source, target, filesystem type, options) tuples.

use vstd::prelude::*;

use crate::error::DecodeReason;
use crate::error::RsysError;
use crate::text::lines_spec;
use crate::text::split_lines;
use crate::text::split_whitespace;
use crate::text::split_ws;

verus! {

/// One mounted filesystem: where it comes from, where it is mounted,
/// its filesystem type and its options.
#[derive(Clone, Debug)]
pub struct MountPoint {
    pub source: String,
    pub target: String,
    pub fstype: String,
    pub options: String,
}

/// The mathematical model of a mount entry.
pub struct MountPointV {
    pub source: Seq<char>,
    pub target: Seq<char>,
    pub fstype: Seq<char>,
    pub options: Seq<char>,
}

impl View for MountPoint {
    type V = MountPointV;

    open spec fn view(&self) -> MountPointV {
        MountPointV {
            source: self.source@,
            target: self.target@,
            fstype: self.fstype@,
            options: self.options@,
        }
    }
}

/// The number of columns of a mount-table line.
pub open spec fn mount_cols() -> int {
    6
}

/// Whether a mount-table line has its exact column count.
pub open spec fn mount_ok(l: Seq<char>) -> bool {
    split_ws(l).len() == mount_cols()
}

/// The decoded entry of a well-formed mount-table line: its first four
/// columns.
pub open spec fn mount_val(l: Seq<char>) -> MountPointV {
    let t = split_ws(l);
    MountPointV { source: t[0], target: t[1], fstype: t[2], options: t[3] }
}

/// The ordered list of mounted filesystems.
#[derive(Clone, Debug)]
pub struct MountPoints(pub Vec<MountPoint>);

/// Decodes the mount table: every line must hold the exact column
/// count; the entries come in table order.
pub fn mounts(raw: &str) -> (r: Result<MountPoints, RsysError>)
    ensures
        r is Ok <==> (forall|i: int|
            0 <= i < lines_spec(raw@).len() ==> mount_ok(#[trigger] lines_spec(raw@)[i])),
        r matches Ok(v) ==> v.0@.map_values(|m: MountPoint| m@) == lines_spec(raw@).map_values(
            |l: Seq<char>| mount_val(l),
        ),
        r matches Err(e) ==> (e matches RsysError::DecodeError {
            reason: DecodeReason::FieldCount { expected, .. },
            ..
        } && expected == 6),
{
    let ls = split_lines(raw);
    let n = ls.len();
    let mut out: Vec<MountPoint> = Vec::new();
    let mut i: usize = 0;
    proof {
        assert(out@.map_values(|m: MountPoint| m@) =~= lines_spec(raw@).take(0).map_values(
            |l: Seq<char>| mount_val(l),
        ));
    }
    while i < n
        invariant
            i <= n,
            n == ls@.len(),
            ls.deep_view() == lines_spec(raw@),
            forall|k: int| 0 <= k < i ==> mount_ok(#[trigger] ls.deep_view()[k]),
            out@.map_values(|m: MountPoint| m@) =~~= ls.deep_view().take(i as int).map_values(
                |l: Seq<char>| mount_val(l),
            ),
        decreases n - i,
    {
        proof {
            assert(ls.deep_view()[i as int] == ls@[i as int]@);
        }
        let toks = split_whitespace(ls[i].as_str());
        if toks.len() != 6 {
            return Err(RsysError::DecodeError {
                raw: ls[i].clone(),
                reason: DecodeReason::FieldCount { expected: 6, actual: toks.len() as u64 },
            });
        }
        proof {
            assert(toks.deep_view()[0] == toks@[0]@);
            assert(toks.deep_view()[1] == toks@[1]@);
            assert(toks.deep_view()[2] == toks@[2]@);
            assert(toks.deep_view()[3] == toks@[3]@);
        }
        let m = MountPoint {
            source: toks[0].clone(),
            target: toks[1].clone(),
            fstype: toks[2].clone(),
            options: toks[3].clone(),
        };
        let ghost pre = out@.map_values(|m: MountPoint| m@);
        out.push(m);
        proof {
            assert(out@.map_values(|m: MountPoint| m@) =~= pre.push(mount_val(
                ls.deep_view()[i as int],
            )));
            assert(ls.deep_view().take(i + 1) =~= ls.deep_view().take(i as int).push(
                ls.deep_view()[i as int],
            ));
        }
        i = i + 1;
    }
    proof {
        assert(ls.deep_view().take(n as int) =~= ls.deep_view());
    }
    Ok(MountPoints(out))
}

} // verus!
