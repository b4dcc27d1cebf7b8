//! The interact command: use the block at the given coordinates.
use vstd::prelude::*;
use crate::chambers::BlockPos;
use crate::chat::{reply, reply_to, CommandEvent, WhisperEvent};
use crate::commands::Cmds;
use crate::text::{chars_of, parse_i32, parse_i32_spec};

verus! {

/// The block the first three arguments name, when each is a 32-bit integer.
pub open spec fn coordinates(args: Seq<Seq<char>>) -> Option<BlockPos> {
    match (parse_i32_spec(args[0]), parse_i32_spec(args[1]), parse_i32_spec(args[2])) {
        (Some(x), Some(y), Some(z)) => Some(BlockPos { x, y, z }),
        _ => None,
    }
}

/// What the command does with the commands read, in order: each interact command with three
/// coordinates is answered `Interacted` and uses the block; one without enough coordinates,
/// or with one that is not a number, is answered so and ends the reading. Other commands
/// are passed by.
pub open spec fn interact_results(es: Seq<CommandEvent>) -> Seq<(CommandEvent, Seq<char>, Option<BlockPos>)>
    decreases es.len(),
{
    if es.len() == 0 {
        Seq::empty()
    } else {
        let e = es[0];
        let args = e.args@.map_values(|s: String| s@);
        if e.command != Cmds::Interact {
            interact_results(es.skip(1))
        } else if args.len() < 3 {
            seq![(e, "Missing coordinate"@, None)]
        } else {
            match coordinates(args) {
                None => seq![(e, "Invalid coordinate"@, None)],
                Some(p) => seq![(e, "Interacted"@, Some(p))] + interact_results(es.skip(1)),
            }
        }
    }
}

/// Runs the interact command over the commands read: the replies, each with the block used,
/// if any. Every reply has status 200.
pub fn handle_interact_cmd_events(events: &Vec<CommandEvent>) -> (r: Vec<(WhisperEvent, Option<BlockPos>)>)
    ensures
        r@.len() == interact_results(events@).len(),
        forall|i: int| 0 <= i < r@.len() ==> {
            let x = #[trigger] interact_results(events@)[i];
            &&& reply_to(r@[i].0, x.0, 200, x.1)
            &&& r@[i].1 == x.2
        },
{
    let mut r: Vec<(WhisperEvent, Option<BlockPos>)> = Vec::new();
    let ghost mut done: Seq<(CommandEvent, Seq<char>, Option<BlockPos>)> = Seq::empty();
    let mut i: usize = 0;
    assert(events@.skip(0) =~= events@);
    assert(done + interact_results(events@) =~= interact_results(events@));
    while i < events.len()
        invariant
            i <= events.len(),
            done + interact_results(events@.skip(i as int)) == interact_results(events@),
            done.len() == r@.len(),
            forall|k: int| 0 <= k < r@.len() ==> {
                &&& reply_to(#[trigger] r@[k].0, done[k].0, 200, done[k].1)
                &&& r@[k].1 == done[k].2
            },
        decreases events.len() - i,
    {
        let ghost rest = events@.skip(i as int);
        let e = &events[i];
        assert(rest[0] == *e);
        assert(rest.skip(1) =~= events@.skip(i + 1));
        if e.command == Cmds::Interact {
            let ghost args = e.args@.map_values(|s: String| s@);
            if e.args.len() < 3 {
                let w = reply(e, 200, "Missing coordinate".to_owned());
                r.push((w, None));
                proof {
                    assert(interact_results(rest) == seq![(*e, "Missing coordinate"@, None::<BlockPos>)]);
                    done = done.push((*e, "Missing coordinate"@, None::<BlockPos>));
                    assert(done =~= interact_results(events@));
                    assert forall|k: int| 0 <= k < r@.len() implies {
                        &&& reply_to(#[trigger] r@[k].0, done[k].0, 200, done[k].1)
                        &&& r@[k].1 == done[k].2
                    } by {}
                }
                return r;
            }
            assert(args[0] == e.args@[0]@ && args[1] == e.args@[1]@ && args[2] == e.args@[2]@);
            let x = parse_i32(&chars_of(e.args[0].as_str()));
            let y = parse_i32(&chars_of(e.args[1].as_str()));
            let z = parse_i32(&chars_of(e.args[2].as_str()));
            match (x, y, z) {
                (Some(x), Some(y), Some(z)) => {
                    let w = reply(e, 200, "Interacted".to_owned());
                    let p = BlockPos { x, y, z };
                    r.push((w, Some(p)));
                    proof {
                        let item = (*e, "Interacted"@, Some(p));
                        assert(interact_results(rest) == seq![item] + interact_results(rest.skip(1)));
                        let old_done = done;
                        done = done.push(item);
                        assert(done + interact_results(events@.skip(i + 1)) =~= old_done + interact_results(rest));
                    }
                },
                _ => {
                    let w = reply(e, 200, "Invalid coordinate".to_owned());
                    r.push((w, None));
                    proof {
                        assert(interact_results(rest) == seq![(*e, "Invalid coordinate"@, None::<BlockPos>)]);
                        done = done.push((*e, "Invalid coordinate"@, None::<BlockPos>));
                        assert(done =~= interact_results(events@));
                        assert forall|k: int| 0 <= k < r@.len() implies {
                            &&& reply_to(#[trigger] r@[k].0, done[k].0, 200, done[k].1)
                            &&& r@[k].1 == done[k].2
                        } by {}
                    }
                    return r;
                },
            }
        } else {
            assert(interact_results(rest) == interact_results(rest.skip(1)));
        }
        i = i + 1;
    }
    proof {
        assert(events@.skip(i as int) =~= Seq::<CommandEvent>::empty());
        assert(interact_results(events@.skip(i as int)) =~= Seq::empty());
        assert(done + interact_results(events@.skip(i as int)) =~= done);
        assert(done == interact_results(events@));
        assert forall|k: int| 0 <= k < r@.len() implies {
            let x = #[trigger] interact_results(events@)[k];
            &&& reply_to(r@[k].0, x.0, 200, x.1)
            &&& r@[k].1 == x.2
        } by {
            assert(reply_to(r@[k].0, done[k].0, 200, done[k].1));
        }
    }
    r
}

} // verus!
