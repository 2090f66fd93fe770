use vstd::prelude::*;
use crate::records::{PlayerInfo, Profile, profile_of};
use crate::message::MessageKind;
use crate::decimal::{read_u32, reads_unsigned, digits_value, unsigned_digits};
use bitbuffer::{BitError, BitReadBuffer, BitReadStream, LittleEndian};
use tf_demo_parser::demo::data::userinfo::UserInfo;

verus! {

/// The error the bit-level decoder reports.
#[verifier::external_type_specification]
#[verifier::external_body]
pub struct ExBitError(BitError);

/// The name of the string table whose entries describe players.
pub open spec fn identity_table() -> Seq<char> {
    "userinfo"@
}

/// Why an entry of the player identity table left the roster unchanged.
#[derive(Clone, Copy, Debug, PartialEq, Eq, Structural)]
pub enum RosterError {
    /// The entry could not be decoded into a player's identity.
    IdentityDecodeFailure,
}

/// No two profiles share a player identity.
pub open spec fn unique_identities(s: Seq<Profile>) -> bool {
    forall|i: int, j: int| 0 <= i < j < s.len() ==> s[i].user_id != s[j].user_id
}

/// Some profile of `s` is that of player `id`.
pub open spec fn has_identity(s: Seq<Profile>, id: u16) -> bool {
    exists|i: int| 0 <= i < s.len() && s[i].user_id == id
}

/// The roster after a decoded entry was offered to `s`: a new identity is
/// appended, a known one leaves the roster as it was.
pub open spec fn admitted(s: Seq<Profile>, decoded: Option<PlayerInfo>, r: Seq<Profile>) -> bool {
    match decoded {
        None => r == s,
        Some(info) => if has_identity(s, info.user_id) {
            r == s
        } else {
            &&& r.len() == s.len() + 1
            &&& r.drop_last() == s
            &&& profile_of(info, r.last())
        },
    }
}

pub open spec fn text_view(text: Option<&str>) -> Option<Seq<char>> {
    match text {
        Some(t) => Some(t@),
        None => None,
    }
}

pub open spec fn data_view(data: Option<&[u8]>) -> Option<Seq<u8>> {
    match data {
        Some(d) => Some(d@),
        None => None,
    }
}

/// What the parser decodes from an entry of the player identity table at
/// `index`, with the entry's text and extra data: `None` where decoding
/// fails, `Some(None)` for an entry that names no player.
pub uninterp spec fn user_info_of(index: u16, text: Option<Seq<char>>, data: Option<Seq<u8>>) -> Option<Option<PlayerInfo>>;

/// The entry's text is the largest 32-bit number, whose entity number (one
/// more) does not fit; with extra data present the decoder would reach it.
pub open spec fn entity_out_of_range(text: Option<Seq<char>>, data: Option<Seq<u8>>) -> bool {
    &&& data is Some
    &&& text is Some
    &&& reads_unsigned(text->Some_0, 4294967295)
    &&& digits_value(unsigned_digits(text->Some_0)) == 4294967295
}

/// The outcome of decoding an identity entry: `None` where it cannot be
/// decoded, else whether it names a player and which.
pub open spec fn decoded_entry(index: u16, text: Option<Seq<char>>, data: Option<Seq<u8>>) -> Option<Option<PlayerInfo>> {
    if entity_out_of_range(text, data) {
        None
    } else {
        user_info_of(index, text, data)
    }
}

/// Relies on UserInfo::parse_from_string_table to decode one entry of the
/// player identity table: an error where the bytes do not hold a player's
/// record, `Ok(None)` for an entry that names no player. Its result depends
/// on the index, the text and the bytes alone. It adds one to the number the
/// text holds, so the largest 32-bit number is kept out.
#[verifier::external_body]
fn decode_user_info(index: u16, text: Option<&str>, data: Option<&[u8]>) -> (r: Result<Option<PlayerInfo>, BitError>)
    requires
        !entity_out_of_range(text_view(text), data_view(data)),
    ensures
        r is Err <==> user_info_of(index, text_view(text), data_view(data)) is None,
        r is Ok ==> user_info_of(index, text_view(text), data_view(data)) == Some(r->Ok_0),
{
    let data = data.map(|d| BitReadStream::new(BitReadBuffer::new(d, LittleEndian)));
    let info = UserInfo::parse_from_string_table(index, text, data)?;
    Ok(info.map(|UserInfo { player_info: p, .. }| PlayerInfo {
        name: p.name, user_id: p.user_id.into(), steam_id: p.steam_id,
        friends_id: p.friends_id, is_fake_player: p.is_fake_player, is_hl_tv: p.is_hl_tv,
        is_replay: p.is_replay, more_extra: p.more_extra, custom_file: p.custom_file,
        files_downloaded: p.files_downloaded,
    }))
}

/// Whether an entry has extra data and a text that reads as the largest
/// 32-bit number.
pub fn is_entity_out_of_range(text: Option<&str>, data: Option<&[u8]>) -> (r: bool)
    ensures
        r == entity_out_of_range(text_view(text), data_view(data)),
{
    match (text, data) {
        (Some(t), Some(_)) => match read_u32(t) {
            Some(value) => value == 4294967295,
            None => false,
        },
        _ => false,
    }
}

/// Decodes an entry of the player identity table: `None` where it cannot be
/// decoded.
pub fn decode_entry(index: u16, text: Option<&str>, data: Option<&[u8]>) -> (r: Option<Option<PlayerInfo>>)
    ensures
        r == decoded_entry(index, text_view(text), data_view(data)),
{
    if is_entity_out_of_range(text, data) {
        return None;
    }
    match decode_user_info(index, text, data) {
        Ok(decoded) => Some(decoded),
        Err(_) => None,
    }
}

/// Whether `table` names the player identity table.
pub fn is_identity_table(table: &str) -> (r: bool)
    ensures
        r == (table@ == identity_table()),
{
    let name = table.to_owned();
    let wanted = "userinfo".to_owned();
    name == wanted
}

/// The players seen so far, each recorded the first time its identity came up.
pub struct Roster {
    pub roster: Vec<Profile>,
    /// The identity of each profile, in the same order.
    pub user_ids: Vec<u16>,
}

impl View for Roster {
    type V = Seq<Profile>;

    /// The profiles in the order their identities were first seen.
    open spec fn view(&self) -> Seq<Profile> {
        self.roster@
    }
}

impl Roster {
    /// Each recorded identity is listed beside its profile, and no two
    /// profiles share an identity.
    pub open spec fn wf(&self) -> bool {
        &&& self.user_ids@.len() == self.roster@.len()
        &&& forall|i: int| 0 <= i < self.roster@.len() ==> self.user_ids@[i] == #[trigger] self.roster@[i].user_id
        &&& unique_identities(self.roster@)
    }

    pub fn new() -> (r: Roster)
        ensures
            r.wf(),
            unique_identities(r@),
            r@.len() == 0,
    {
        let roster = Vec::new();
        let user_ids = Vec::new();
        Roster { roster, user_ids }
    }

    /// However the roster was reached, no two of its profiles share a
    /// player identity.
    pub proof fn lemma_identities_unique(&self)
        requires
            self.wf(),
        ensures
            unique_identities(self@),
    {
    }

    /// The messages whose string-table entries the roster reads.
    pub fn does_handle(message_type: MessageKind) -> (r: bool)
        ensures
            r == (message_type == MessageKind::UpdateStringTable || message_type == MessageKind::CreateStringTable),
    {
        matches!(message_type, MessageKind::UpdateStringTable | MessageKind::CreateStringTable)
    }

    fn knows(&self, id: u16) -> (r: bool)
        requires
            self.wf(),
        ensures
            r == has_identity(self.roster@, id),
    {
        let mut i: usize = 0;
        while i < self.user_ids.len()
            invariant
                self.wf(),
                i <= self.user_ids@.len(),
                forall|j: int| 0 <= j < i ==> self.roster@[j].user_id != id,
            decreases self.user_ids@.len() - i,
        {
            if self.user_ids[i] == id {
                assert(self.roster@[i as int].user_id == id);
                return true;
            }
            i += 1;
        }
        false
    }

    /// Offers a decoded identity entry to the roster: the first profile seen
    /// for an identity is kept, later ones are dropped.
    pub fn offer(&mut self, decoded: Option<PlayerInfo>)
        requires
            old(self).wf(),
        ensures
            final(self).wf(),
            unique_identities(final(self)@),
            admitted(old(self)@, decoded, final(self)@),
    {
        if let Some(player) = decoded {
            if !self.knows(player.user_id) {
                let ghost before = self.roster@;
                self.user_ids.push(player.user_id);
                self.roster.push(Profile::from(player));
                assert(self.roster@.drop_last() =~= before);
            }
        }
    }

    /// Reads one entry of a string table, given its text and extra data.
    /// Entries of tables other than the player identity table leave the
    /// roster unchanged; an identity entry that cannot be decoded is reported
    /// and leaves it unchanged too.
    pub fn handle_string_entry(
        &mut self,
        table: &str,
        index: usize,
        text: Option<&str>,
        data: Option<&[u8]>,
    ) -> (r: Result<(), RosterError>)
        requires
            old(self).wf(),
        ensures
            final(self).wf(),
            unique_identities(final(self)@),
            table@ != identity_table() ==> r is Ok && final(self)@ == old(self)@,
            table@ == identity_table() ==> (r is Err <==> (decoded_entry(index as u16, text_view(text), data_view(data)) is None)),
            table@ == identity_table() && r is Ok ==> admitted(
                old(self)@,
                decoded_entry(index as u16, text_view(text), data_view(data))->Some_0,
                final(self)@,
            ),
            r is Err ==> final(self)@ == old(self)@,
    {
        if is_identity_table(table) {
            match decode_entry(index as u16, text, data) {
                Some(decoded) => {
                    self.offer(decoded);
                    Ok(())
                },
                None => Err(RosterError::IdentityDecodeFailure),
            }
        } else {
            Ok(())
        }
    }
}

} // verus!
