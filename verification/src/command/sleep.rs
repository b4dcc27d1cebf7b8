//! The `sleep` command.
use vstd::prelude::*;
use crate::chambers::BlockPos;
use crate::settings::Coordinates;

verus! {

/// Says good night and uses the bed.
pub struct Command;

/// The good-night lines.
pub open spec fn good_night_lines() -> Seq<Seq<char>> {
    seq![
        "I could use some sleep, I'll turn in for the night. Zzz"@,
        "I think I'll get some sleep now. Zzz"@,
        "I think I'll turn in and get some rest. Zzz"@,
        "I think I'll turn in for the night and get some sleep. Zzz"@,
        "I'm a bit tired now, I think I'll turn in. Zzz"@,
        "I'm feeling a bit fatigued, I think I'll turn in for the night. Zzz"@,
        "I'm feeling a bit wiped out, I think it's time to hit the hay. Zzz"@,
        "I'm feeling ready to turn in for the night. Zzz"@,
        "I'm feeling sleepier by the minute, I think it's time to call it a night. Zzz"@,
        "I'm feeling sleepy and ready to go to bed. Zzz"@,
        "I'm feeling tired and ready to drift off to sleep. Zzz"@,
        "I'm feeling tired and ready to go to sleep. Zzz"@,
        "I'm feeling tired and ready to sleep. Zzz"@,
        "I'm feeling tired and ready to turn in for the night. Zzz"@,
        "I'm getting ready to drift off now. Zzz"@,
        "I'm going to catch some z's now. Zzz"@,
        "I'm going to catch some z's. Zzz"@,
        "I'm going to get some rest now. Zzz"@,
        "I'm going to get some shut-eye. Zzz"@,
        "I'm going to get some sleep now. Zzz"@,
        "I'm going to head to bed and get some sleep. Zzz"@,
        "I'm going to head to bed now. Zzz"@,
        "I'm going to hit the hay. Zzz"@,
        "I'm going to tuck myself in and get some rest. Zzz"@,
        "I'm going to tuck myself in now. Zzz"@,
        "I'm going to turn in for the night. Zzz"@,
        "I'm off to bed now. Zzz"@,
        "I'm off to get some rest now. Zzz"@,
        "I'm ready to call it a night and get some sleep. Zzz"@,
        "I'm ready to drift off to dreamland now. Zzz"@,
        "I'm ready to drift off to dreamland. Zzz"@,
        "I'm ready to get some shut-eye. Zzz"@,
        "I'm ready to go to bed and get some rest. Zzz"@,
        "I'm ready to head to bed now. Zzz"@,
        "I'm starting to feel the weight of the day, I think it's time to get some rest. Zzz"@,
        "I'm starting to get drowsy, I think it's time to tuck myself in. Zzz"@,
        "I'm tired, I think it's time for me to hit the hay. Zzz"@,
        "It's been a long day, I'm ready to catch some shut-eye. Zzz"@,
        "It's time for me to catch some shut-eye. Zzz"@,
        "It's time for me to drift off to sleep. Zzz"@,
        "It's time for me to get some rest. Zzz"@,
        "It's time for me to turn in and get some rest. Zzz"@,
        "Ok, I'll get some rest now. Zzz"@,
        "Pro Tip: You can filter Zzz to hide *most* sleep messages. *cough*"@,
    ]
}

fn sleep_lines() -> (r: Vec<&'static str>)
    ensures
        r@.map_values(|t: &'static str| t@) == good_night_lines(),
{
    let r = vec![
        "I could use some sleep, I'll turn in for the night. Zzz",
        "I think I'll get some sleep now. Zzz",
        "I think I'll turn in and get some rest. Zzz",
        "I think I'll turn in for the night and get some sleep. Zzz",
        "I'm a bit tired now, I think I'll turn in. Zzz",
        "I'm feeling a bit fatigued, I think I'll turn in for the night. Zzz",
        "I'm feeling a bit wiped out, I think it's time to hit the hay. Zzz",
        "I'm feeling ready to turn in for the night. Zzz",
        "I'm feeling sleepier by the minute, I think it's time to call it a night. Zzz",
        "I'm feeling sleepy and ready to go to bed. Zzz",
        "I'm feeling tired and ready to drift off to sleep. Zzz",
        "I'm feeling tired and ready to go to sleep. Zzz",
        "I'm feeling tired and ready to sleep. Zzz",
        "I'm feeling tired and ready to turn in for the night. Zzz",
        "I'm getting ready to drift off now. Zzz",
        "I'm going to catch some z's now. Zzz",
        "I'm going to catch some z's. Zzz",
        "I'm going to get some rest now. Zzz",
        "I'm going to get some shut-eye. Zzz",
        "I'm going to get some sleep now. Zzz",
        "I'm going to head to bed and get some sleep. Zzz",
        "I'm going to head to bed now. Zzz",
        "I'm going to hit the hay. Zzz",
        "I'm going to tuck myself in and get some rest. Zzz",
        "I'm going to tuck myself in now. Zzz",
        "I'm going to turn in for the night. Zzz",
        "I'm off to bed now. Zzz",
        "I'm off to get some rest now. Zzz",
        "I'm ready to call it a night and get some sleep. Zzz",
        "I'm ready to drift off to dreamland now. Zzz",
        "I'm ready to drift off to dreamland. Zzz",
        "I'm ready to get some shut-eye. Zzz",
        "I'm ready to go to bed and get some rest. Zzz",
        "I'm ready to head to bed now. Zzz",
        "I'm starting to feel the weight of the day, I think it's time to get some rest. Zzz",
        "I'm starting to get drowsy, I think it's time to tuck myself in. Zzz",
        "I'm tired, I think it's time for me to hit the hay. Zzz",
        "It's been a long day, I'm ready to catch some shut-eye. Zzz",
        "It's time for me to catch some shut-eye. Zzz",
        "It's time for me to drift off to sleep. Zzz",
        "It's time for me to get some rest. Zzz",
        "It's time for me to turn in and get some rest. Zzz",
        "Ok, I'll get some rest now. Zzz",
        "Pro Tip: You can filter Zzz to hide *most* sleep messages. *cough*",
    ];
    assert(r@.map_values(|t: &'static str| t@) =~= good_night_lines());
    r
}

/// Picks one of the texts at random with `rand`'s `SliceRandom::choose` on `thread_rng`.
/// Nothing for an empty list, else one of the texts; which one rests on chance.
#[verifier::external_body]
fn choose_text(texts: &[&'static str]) -> (r: Option<&'static str>)
    ensures
        texts@.len() == 0 <==> r is None,
        r matches Some(t) ==> texts@.contains(t),
{
    rand::seq::SliceRandom::choose(texts, &mut rand::thread_rng()).copied()
}

impl Command {
    /// The reply, one of the good-night lines picked at random, and the bed block the bot
    /// then uses.
    pub fn message(&self, bed: &Coordinates) -> (r: (String, BlockPos))
        ensures
            good_night_lines().contains(r.0@),
            r.1 == (BlockPos { x: bed.x, y: bed.y, z: bed.z }),
    {
        let lines = sleep_lines();
        let ghost views = lines@.map_values(|t: &'static str| t@);
        assert(views.len() > 0);
        let text = match choose_text(lines.as_slice()) {
            Some(t) => {
                let ghost i = choose|i: int| 0 <= i < lines@.len() && lines@[i] == t;
                assert(views[i] == t@);
                t.to_owned()
            },
            None => {
                assert(views[0] == lines@[0]@);
                lines[0].to_owned()
            },
        };
        (text, BlockPos { x: bed.x, y: bed.y, z: bed.z })
    }
}

} // verus!
