//! Commands read from Minecraft chat, and replies whispered back in it.
use vstd::prelude::*;
use crate::chat::{find_name, find_uuid, name_by_uuid, uuid_by_name, whisper_command, whisper_line, CommandEvent, CommandSender, CommandSource, TabEntry, WhisperEvent};
use crate::chat_format::{parse_line, parse_line_spec, ChatFormat};
use crate::commands::handlers::{cooldown_check, Cooldown};
use crate::commands::{parse_command, parse_command_spec, texts, Cmds};
use crate::ncr::{candidate_list, decrypt_with, find_among, find_in, key_from_setting, key_of, ncr_ecb_encrypt, one_pass, reply_encryption, try_encrypt as encrypt_reply, ChatEncryption, EncryptionType};
use crate::text::{chars_of, split, split_on, starts_with, string_of, views};

verus! {

/// A chat message as received: the sender the server named, if any, the text, and whether
/// the server marked it as a whisper.
pub struct ReceivedChat {
    pub sender: Option<String>,
    pub content: String,
    pub whisper: bool,
}

/// The settings that command intake reads.
pub struct IntakeSettings {
    pub command_prefix: String,
    /// The cooldown between commands of one sender, in milliseconds.
    pub command_cooldown: u64,
    /// Whether only whitelisted players may send commands.
    pub whitelist: bool,
    pub whitelisted: Vec<u128>,
    pub encryption: ChatEncryption,
}

/// The sender, text and whisper flag of a chat message: as the server gave them, else read
/// from the text in the given format.
pub open spec fn chat_parts(chat: ReceivedChat, f: ChatFormat) -> Option<(Seq<char>, Seq<char>, bool)> {
    match chat.sender {
        Some(u) => Some((u@, chat.content@, chat.whisper)),
        None => match parse_line_spec(chat.content@, f) {
            Some((name, marker, content)) => Some((name, content, marker is Some)),
            None => None,
        },
    }
}

/// The command a chat message asks for, for a sender found in the tab list and allowed by the
/// whitelist, after decryption, when the sender is not on cooldown; with the cooldown's times
/// afterwards. `message` says whether to keep the whisper flag; `prefixed` whether the
/// command word must begin with the command prefix.
pub open spec fn chat_command(
    chat: ReceivedChat,
    f: ChatFormat,
    message: bool,
    prefixed: bool,
    tab: Seq<TabEntry>,
    settings: IntakeSettings,
    seen: Map<Seq<char>, u64>,
    now: u64,
) -> (Option<(Cmds, Seq<Seq<char>>, bool, u128, Option<EncryptionType>)>, Map<Seq<char>, u64>) {
    match chat_parts(chat, f) {
        None => (None, seen),
        Some((name, content, whisper)) => match uuid_by_name(tab, name) {
            None => (None, seen),
            Some(uuid) => if settings.whitelist && !settings.whitelisted@.contains(uuid) {
                (None, seen)
            } else {
                let (enc, plain) = find_in(one_pass(), content, key_of(settings.encryption.key@));
                let word = split_on(plain, ' ')[0];
                let prefix = settings.command_prefix@;
                match parse_command_spec(plain, prefix) {
                    None => (None, seen),
                    Some(_) if prefixed && !(prefix.len() <= word.len() && word.take(prefix.len() as int) == prefix) => (None, seen),
                    Some((cmd, args)) => {
                        let (blocked, seen2) = cooldown_check(seen, name, settings.command_cooldown, now);
                        if blocked {
                            (None, seen2)
                        } else {
                            (Some((cmd, args, message && whisper, uuid, enc)), seen2)
                        }
                    },
                }
            },
        },
    }
}

/// The view of a command event that intake produces.
pub open spec fn intake_view(e: CommandEvent) -> Option<(Cmds, Seq<Seq<char>>, bool, u128, Option<EncryptionType>)> {
    match (e.sender, e.source) {
        (CommandSender::Minecraft(uuid), CommandSource::Minecraft(enc)) => Some((e.command, texts(e.args@), e.message, uuid, enc)),
        _ => None,
    }
}

fn contains_uuid(v: &Vec<u128>, u: u128) -> (b: bool)
    ensures
        b == v@.contains(u),
{
    let mut i: usize = 0;
    while i < v.len()
        invariant
            i <= v.len(),
            forall|j: int| 0 <= j < i ==> v@[j] != u,
        decreases v.len() - i,
    {
        if v[i] == u {
            return true;
        }
        i = i + 1;
    }
    false
}

/// Reads the command in one chat message, as [`chat_command`] describes.
pub fn command_from_chat(
    chat: &ReceivedChat,
    f: ChatFormat,
    message: bool,
    prefixed: bool,
    entity: u64,
    tab: &Vec<TabEntry>,
    settings: &IntakeSettings,
    cooldown: &mut Cooldown,
    now: u64,
) -> (r: Option<CommandEvent>)
    requires
        old(cooldown).wf(),
    ensures
        final(cooldown).wf(),
        (match r {
            Some(e) => intake_view(e),
            None => None,
        }, final(cooldown).view()) == chat_command(*chat, f, message, prefixed, tab@, *settings, old(cooldown).view(), now),
        r matches Some(e) ==> e.entity == entity && intake_view(e) is Some,
{
    let (name, content, whisper) = match &chat.sender {
        Some(u) => (u.clone(), chat.content.clone(), chat.whisper),
        None => match parse_line(&chars_of(chat.content.as_str()), f) {
            Some(line) => (string_of(&line.name), string_of(&line.content), line.marker.is_some()),
            None => return None,
        },
    };
    let uuid = match find_uuid(tab, &name) {
        Some(u) => u,
        None => return None,
    };
    if settings.whitelist && !contains_uuid(&settings.whitelisted, uuid) {
        return None;
    }
    let key = key_from_setting(&settings.encryption.key);
    let (enc, plain) = find_among(&candidate_list(1), content.as_str(), &key);
    let (cmd, args) = match parse_command(plain.as_str(), settings.command_prefix.as_str()) {
        Some(p) => p,
        None => return None,
    };
    if prefixed {
        let words = split(&chars_of(plain.as_str()), ' ');
        assert(views(words@)[0] == words@[0]@);
        if !starts_with(string_of(&words[0]).as_str(), settings.command_prefix.as_str()) {
            return None;
        }
    }
    if cooldown.check(&name, settings.command_cooldown, now) {
        return None;
    }
    Some(CommandEvent {
        entity,
        args,
        command: cmd,
        message: message && whisper,
        sender: CommandSender::Minecraft(uuid),
        source: CommandSource::Minecraft(enc),
    })
}

/// The tab list of the first bot with the entity.
pub open spec fn tab_of(tabs: Seq<(u64, Vec<TabEntry>)>, entity: u64) -> Option<Seq<TabEntry>>
    decreases tabs.len(),
{
    if tabs.len() == 0 {
        None
    } else if tabs[0].0 == entity {
        Some(tabs[0].1@)
    } else {
        tab_of(tabs.skip(1), entity)
    }
}

/// A command read from chat: the bot's entity and the command's view.
pub type IntakeItem = (u64, (Cmds, Seq<Seq<char>>, bool, u128, Option<EncryptionType>));

/// The commands read from a batch of chat messages, in order, and the cooldown's times after:
/// each message is read as [`chat_command`] says for its bot's tab list. A message that reads
/// but whose bot has no tab list (the bot is not connected) drops the whole batch; the
/// cooldown keeps what the messages before it did to it.
pub open spec fn intake_run(
    chats: Seq<(u64, ReceivedChat)>,
    tabs: Seq<(u64, Vec<TabEntry>)>,
    f: ChatFormat,
    message: bool,
    prefixed: bool,
    settings: IntakeSettings,
    seen: Map<Seq<char>, u64>,
    now: u64,
) -> (Option<Seq<IntakeItem>>, Map<Seq<char>, u64>)
    decreases chats.len(),
{
    if chats.len() == 0 {
        (Some(Seq::empty()), seen)
    } else {
        let (entity, chat) = chats[0];
        match chat_parts(chat, f) {
            None => intake_run(chats.skip(1), tabs, f, message, prefixed, settings, seen, now),
            Some(_) => match tab_of(tabs, entity) {
                None => (None, seen),
                Some(tab) => {
                    let (c, seen2) = chat_command(chat, f, message, prefixed, tab, settings, seen, now);
                    let (rest, seen3) = intake_run(chats.skip(1), tabs, f, message, prefixed, settings, seen2, now);
                    (match rest {
                        None => None,
                        Some(evs) => Some(match c {
                            Some(v) => seq![(entity, v)] + evs,
                            None => evs,
                        }),
                    }, seen3)
                },
            },
        }
    }
}

/// Whether the command events are the items read.
pub open spec fn events_are(r: Seq<CommandEvent>, items: Seq<IntakeItem>) -> bool {
    &&& r.len() == items.len()
    &&& forall|k: int| 0 <= k < r.len() ==> (#[trigger] r[k]).entity == items[k].0 && intake_view(r[k]) == Some(items[k].1)
}

fn find_tab(tabs: &Vec<(u64, Vec<TabEntry>)>, entity: u64) -> (r: Option<usize>)
    ensures
        match r {
            Some(i) => i < tabs@.len() && tab_of(tabs@, entity) == Some(tabs@[i as int].1@),
            None => tab_of(tabs@, entity) is None,
        },
{
    let mut i: usize = 0;
    assert(tabs@.skip(0) =~= tabs@);
    while i < tabs.len()
        invariant
            i <= tabs.len(),
            tab_of(tabs@.skip(i as int), entity) == tab_of(tabs@, entity),
        decreases tabs.len() - i,
    {
        assert(tabs@.skip(i as int)[0] == tabs@[i as int]);
        assert(tabs@.skip(i as int).skip(1) =~= tabs@.skip(i + 1));
        if tabs[i].0 == entity {
            return Some(i);
        }
        i = i + 1;
    }
    None
}

fn parses(chat: &ReceivedChat, f: ChatFormat) -> (b: bool)
    ensures
        b == chat_parts(*chat, f) is Some,
{
    match &chat.sender {
        Some(_) => true,
        None => parse_line(&chars_of(chat.content.as_str()), f).is_some(),
    }
}

/// Reads the commands in a batch of chat messages, as [`intake_run`] says.
pub fn intake_batch(
    chats: &Vec<(u64, ReceivedChat)>,
    tabs: &Vec<(u64, Vec<TabEntry>)>,
    f: ChatFormat,
    message: bool,
    prefixed: bool,
    settings: &IntakeSettings,
    cooldown: &mut Cooldown,
    now: u64,
) -> (r: Vec<CommandEvent>)
    requires
        old(cooldown).wf(),
    ensures
        final(cooldown).wf(),
        ({
            let (res, seen) = intake_run(chats@, tabs@, f, message, prefixed, *settings, old(cooldown).view(), now);
            &&& final(cooldown).view() == seen
            &&& match res {
                None => r@.len() == 0,
                Some(items) => events_are(r@, items),
            }
        }),
{
    let mut r: Vec<CommandEvent> = Vec::new();
    let ghost mut done: Seq<IntakeItem> = Seq::empty();
    let ghost whole = intake_run(chats@, tabs@, f, message, prefixed, *settings, cooldown.view(), now);
    let mut i: usize = 0;
    assert(chats@.skip(0) =~= chats@);
    assert(done + whole.0->0 =~= whole.0->0) by {
        if whole.0 is Some {
            assert(done + whole.0->0 =~= whole.0->0);
        }
    };
    while i < chats.len()
        invariant
            i <= chats.len(),
            cooldown.wf(),
            whole == intake_run(chats@, tabs@, f, message, prefixed, *settings, old(cooldown).view(), now),
            ({
                let (res, seen) = intake_run(chats@.skip(i as int), tabs@, f, message, prefixed, *settings, cooldown.view(), now);
                &&& whole.1 == seen
                &&& match res {
                    None => whole.0 is None,
                    Some(evs) => whole.0 == Some(done + evs),
                }
            }),
            events_are(r@, done),
        decreases chats.len() - i,
    {
        let ghost rest = chats@.skip(i as int);
        let ghost seen_i = cooldown.view();
        let ghost run_i = intake_run(rest, tabs@, f, message, prefixed, *settings, seen_i, now);
        assert(rest[0] == chats@[i as int]);
        assert(rest.skip(1) =~= chats@.skip(i + 1));
        let chat = &chats[i].1;
        let entity = chats[i].0;
        if parses(chat, f) {
            let t = match find_tab(tabs, entity) {
                Some(t) => t,
                None => {
                    assert(run_i.0 is None && run_i.1 == seen_i);
                    return Vec::new();
                },
            };
            let ghost tab = tabs@[t as int].1@;
            let ghost cc = chat_command(*chat, f, message, prefixed, tab, *settings, seen_i, now);
            let ghost before = r@;
            let c = command_from_chat(chat, f, message, prefixed, entity, &tabs[t].1, settings, cooldown, now);
            let ghost run_next = intake_run(chats@.skip(i + 1), tabs@, f, message, prefixed, *settings, cooldown.view(), now);
            assert(cooldown.view() == cc.1);
            assert(run_i.1 == run_next.1);
            assert(run_i.0 == match run_next.0 {
                None => None,
                Some(evs) => Some(match cc.0 {
                    Some(v) => seq![(entity, v)] + evs,
                    None => evs,
                }),
            });
            match c {
                Some(e) => {
                    proof {
                        done = done.push((entity, intake_view(e)->0));
                    }
                    r.push(e);
                    proof {
                        assert forall|k: int| 0 <= k < r@.len() implies (#[trigger] r@[k]).entity == done[k].0
                            && intake_view(r@[k]) == Some(done[k].1) by {
                            if k < before.len() {
                                assert(r@[k] == before[k]);
                            }
                        }
                        if run_next.0 is Some {
                            assert(done + run_next.0->0 =~= done.drop_last() + (seq![done.last()] + run_next.0->0));
                        }
                    }
                },
                None => {},
            }
        } else {
            assert(run_i == intake_run(chats@.skip(i + 1), tabs@, f, message, prefixed, *settings, seen_i, now));
        }
        i = i + 1;
    }
    proof {
        assert(chats@.skip(i as int) =~= Seq::<(u64, ReceivedChat)>::empty());
        assert(done + Seq::<IntakeItem>::empty() =~= done);
    }
    r
}

/// Whether `r` is the whisper command for a reply: there is one exactly when the reply is for
/// a Minecraft player still in the tab list and responses are on; it whispers the reply to
/// the player's name, in plain text when no encryption applies, else encrypted with the
/// algorithm chosen so that it decrypts to the reply behind the `#%` header (under ECB the
/// encryption itself is fixed; CFB8 and GCM draw a random nonce).
pub open spec fn reply_whisper_ok(event: WhisperEvent, tab: Seq<TabEntry>, disable_responses: bool, encryption: ChatEncryption, r: Option<String>) -> bool {
    &&& r is Some <==> (event.source is Minecraft && event.sender is Minecraft && !disable_responses
        && name_by_uuid(tab, event.sender->Minecraft_0) is Some)
    &&& r matches Some(c) ==> {
        let name = name_by_uuid(tab, event.sender->Minecraft_0).unwrap();
        let enc = reply_encryption(encryption.mode, event.source->Minecraft_0);
        &&& enc is None ==> c@ == whisper_line(name, event.content@)
        &&& enc matches Some(EncryptionType::ECB(e)) ==> c@ == whisper_line(name,
            ncr_ecb_encrypt(e, seq!['#', '%'] + event.content@, key_of(encryption.key@)))
        &&& enc matches Some(e) ==> exists|x: Seq<char>| #[trigger] whisper_line(name, x) == c@
            && decrypt_with(e, x, key_of(encryption.key@)) == Some(seq!['#', '%'] + event.content@)
    }
}

/// Reads commands from Minecraft chat and whispers the replies back.
pub struct MinecraftChatPlugin;

impl MinecraftChatPlugin {
    /// Reads the commands in a batch of received chat messages: from the sender the server
    /// named, or from a custom server's `[tag] name > whispers: text` format, keeping whether
    /// each was a whisper; the command word must begin with the command prefix.
    pub fn handle_chat_received_events(
        chats: &Vec<(u64, ReceivedChat)>,
        tabs: &Vec<(u64, Vec<TabEntry>)>,
        settings: &IntakeSettings,
        cooldown: &mut Cooldown,
        now: u64,
    ) -> (r: Vec<CommandEvent>)
        requires
            old(cooldown).wf(),
        ensures
            final(cooldown).wf(),
            ({
                let (res, seen) = intake_run(chats@, tabs@, ChatFormat::Whisper, true, true, *settings, old(cooldown).view(), now);
                &&& final(cooldown).view() == seen
                &&& match res {
                    None => r@.len() == 0,
                    Some(items) => events_are(r@, items),
                }
            }),
    {
        intake_batch(chats, tabs, ChatFormat::Whisper, true, true, settings, cooldown, now)
    }

    /// The whisper command for a reply to a Minecraft player who is still online, with the
    /// reply encrypted as the sender's message was (or as the settings ask); none when the
    /// reply is not for Minecraft, responses are off, or the player left.
    pub fn handle_whisper_events(
        event: &WhisperEvent,
        tab: &Vec<TabEntry>,
        disable_responses: bool,
        encryption: &ChatEncryption,
    ) -> (r: Option<String>)
        ensures
            reply_whisper_ok(*event, tab@, disable_responses, *encryption, r),
    {
        let (type_encryption, uuid) = match (event.source, event.sender) {
            (CommandSource::Minecraft(t), CommandSender::Minecraft(u)) => (t, u),
            _ => return None,
        };
        if disable_responses {
            return None;
        }
        let name = match find_name(tab, uuid) {
            Some(n) => n,
            None => return None,
        };
        let content = encrypt_reply(encryption, type_encryption, event.content.clone());
        let r = whisper_command(name.as_str(), content.as_str());
        proof {
            let sname = name_by_uuid(tab@, event.sender->Minecraft_0).unwrap();
            assert(sname == name@);
            assert(whisper_line(sname, content@) == r@);
            let enc = reply_encryption(encryption.mode, event.source->Minecraft_0);
            if enc is Some {
                assert(decrypt_with(enc->0, content@, key_of(encryption.key@)) == Some(seq!['#', '%'] + event.content@));
            }
        }
        Some(r)
    }
}

/// Finds the algorithm a chat message was encrypted with, trying CFB8, ECB and GCM with each
/// of the encodings `NewBase64r`, `Base64r` and `Base64`, and decrypts it.
pub fn find_encryption(content: &str, key: &[u8; 16]) -> (r: (Option<EncryptionType>, String))
    ensures
        (r.0, r.1@) == find_in(one_pass(), content@, key@),
{
    find_among(&candidate_list(1), content, key)
}

/// Encrypts a reply in place as the settings and the sender's algorithm ask.
pub fn try_encrypt(content: &mut String, chat_encryption: &ChatEncryption, type_encryption: Option<EncryptionType>)
    ensures
        reply_encryption(chat_encryption.mode, type_encryption) is None ==> final(content)@ == old(content)@,
        reply_encryption(chat_encryption.mode, type_encryption) matches Some(EncryptionType::ECB(enc))
            ==> final(content)@ == ncr_ecb_encrypt(enc, seq!['#', '%'] + old(content)@, key_of(chat_encryption.key@)),
        reply_encryption(chat_encryption.mode, type_encryption) matches Some(e)
            ==> decrypt_with(e, final(content)@, key_of(chat_encryption.key@)) == Some(seq!['#', '%'] + old(content)@),
{
    let text = content.clone();
    *content = encrypt_reply(chat_encryption, type_encryption, text);
}

} // verus!
