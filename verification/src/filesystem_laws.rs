//! The storage operations against a Google Drive that does what it is asked:
//! what a read gives back of a write, and what the other operations leave behind.
use crate::config::ConfigModel;
use crate::drive_plans::{
    after_folder, after_folder_creation, after_folder_search, after_folders, after_parents,
    after_resolve, after_search, conclusion, create_dir_all_plan, delete_file_plan, errand_rest,
    exists_plan, folder_names, folder_rest, get_or_create_folder_plan, goal_rest, is_dir_plan,
    last_request, list_files_plan, list_md_files_plan, listing_outcome, listing_plan, make_folders,
    modified_time_plan, move_file_plan, path_plan, read_binary_plan, read_file_plan, resolve_parts,
    resolve_path_plan, write_bytes_plan, Answer, Ending, ErrandModel, Folder, Found, GoalModel,
    OpModel,
};
use crate::drive_replies::{
    created_folder, deleted, found_file, found_folder, listed_page, markdown_names, told_parent,
    told_time, FileRefModel, ListPageModel,
};
use crate::drive_requests::{
    create_file_model, create_folder_model, delete_model, find_file_model, find_folder_model,
    list_model, media_model, modified_model, move_model, parents_model, update_model,
};
use crate::http::{reply_bytes, HttpRequestModel};
use crate::path::{last_name, law_last_name_is_last_part, path_parts};
use crate::plan::{bind, joined, Listed, ListingModel, Plan};
use vstd::prelude::*;
use vstd::string::*;
use vstd::utf8::encode_utf8;

verus! {

// ---------------------------------------------------------------------------
// A Google Drive
// ---------------------------------------------------------------------------

/// An id without the characters that delimit the parameters of a URL.
pub open spec fn is_plain(id: Seq<char>) -> bool {
    !id.contains('?') && !id.contains('&')
}

/// What a Google Drive holds: what stands in a folder under a name, and the
/// contents of the files by their ids.
pub struct Drive {
    pub entries: Map<(Seq<char>, Seq<char>), FileRefModel>,
    pub contents: Map<Seq<char>, Seq<u8>>,
}

impl Drive {
    /// What stands in a folder under a name.
    pub open spec fn entry(self, folder: Seq<char>, name: Seq<char>) -> Option<FileRefModel> {
        if self.entries.contains_key((folder, name)) {
            Some(self.entries[(folder, name)])
        } else {
            None
        }
    }

    /// The drive with something new in a folder.
    pub open spec fn with_entry(
        self,
        folder: Seq<char>,
        name: Seq<char>,
        file: FileRefModel,
    ) -> Drive {
        Drive { entries: self.entries.insert((folder, name), file), ..self }
    }

    /// The drive with the content of a file set.
    pub open spec fn with_content(self, id: Seq<char>, content: Seq<u8>) -> Drive {
        Drive { contents: self.contents.insert(id, content), ..self }
    }

    /// The drive without a file.
    pub open spec fn without(self, id: Seq<char>) -> Drive {
        Drive {
            entries: self.entries.restrict(
                Set::new(
                    |key: (Seq<char>, Seq<char>)|
                        self.entries.contains_key(key) && self.entries[key].id != id,
                ),
            ),
            contents: self.contents.remove(id),
        }
    }

    /// A drive as Google keeps them: finitely many entries, whose ids can stand in a
    /// URL.
    pub open spec fn is_proper(self) -> bool {
        &&& self.entries.dom().finite()
        &&& forall|folder: Seq<char>, name: Seq<char>|
            (#[trigger] self.entry(folder, name)) matches Some(file) ==> is_plain(file.id)
    }

    /// Something in the drive has the id.
    pub open spec fn has_id(self, id: Seq<char>) -> bool {
        exists|folder: Seq<char>, name: Seq<char>|
            (#[trigger] self.entry(folder, name)) matches Some(file) && file.id == id
    }

    /// An id that can be given to something new in a folder.
    pub open spec fn is_new(self, id: Seq<char>, folder: Seq<char>) -> bool {
        &&& is_plain(id)
        &&& id != folder
        &&& !self.has_id(id)
        &&& forall|name: Seq<char>| #[trigger] self.entry(id, name) is None
    }

    /// Nothing else in the drive has the id of what stands in a folder under a
    /// name.
    pub open spec fn stands_alone(self, folder: Seq<char>, name: Seq<char>) -> bool {
        forall|other: Seq<char>, alias: Seq<char>|
            (self.entry(folder, name) matches Some(file) && #[trigger] self.entry(other, alias)
                matches Some(twin) && twin.id == file.id) ==> other == folder && alias == name
    }

    /// The drive with what stands in a folder under a name moved to another folder
    /// and name.
    pub open spec fn moved(
        self,
        from: (Seq<char>, Seq<char>),
        to: (Seq<char>, Seq<char>),
    ) -> Drive {
        Drive { entries: self.entries.remove(from).insert(to, self.entries[from]), ..self }
    }
}

/// What serves the requests: from what the drive holds, and a request, to what it
/// holds then and what comes of the request.
pub type Host = spec_fn(Drive, HttpRequestModel) -> (Drive, Answer);

/// A content type that files are written with.
pub open spec fn is_content_type(content_type: Seq<char>) -> bool {
    content_type == "text/plain; charset=utf-8"@ || content_type == "application/octet-stream"@
}

/// Searches are answered with what stands in the folder.
pub open spec fn finds(host: Host, config: ConfigModel) -> bool {
    &&& forall|drive: Drive, folder: Seq<char>, name: Seq<char>|
        {
            let (after, answer) = #[trigger] host(drive, find_file_model(config, folder, name));
            &&& after == drive
            &&& answer matches Ok(reply)
            &&& found_file(reply) == Ok::<Option<FileRefModel>, Seq<char>>(
                drive.entry(folder, name),
            )
        }
    &&& forall|drive: Drive, folder: Seq<char>, name: Seq<char>|
        {
            let (after, answer) = #[trigger] host(drive, find_folder_model(config, folder, name));
            &&& after == drive
            &&& answer matches Ok(reply)
            &&& found_folder(reply) == Ok::<Option<Seq<char>>, Seq<char>>(
                match drive.entry(folder, name) {
                    Some(file) => if file.is_folder {
                        Some(file.id)
                    } else {
                        None
                    },
                    None => None,
                },
            )
        }
}

/// A folder or a file that is to be created where nothing stands yet is created,
/// under a new id.
pub open spec fn creates(host: Host, config: ConfigModel) -> bool {
    &&& forall|drive: Drive, folder: Seq<char>, name: Seq<char>|
        drive.is_proper() && drive.entry(folder, name) is None ==> {
            let (after, answer) = #[trigger] host(drive, create_folder_model(config, folder, name));
            &&& answer matches Ok(reply)
            &&& created_folder(reply) matches Ok(id)
            &&& drive.is_new(id, folder)
            &&& after == drive.with_entry(folder, name, FileRefModel { id, is_folder: true })
        }
    &&& forall|
        drive: Drive,
        folder: Seq<char>,
        name: Seq<char>,
        content: Seq<u8>,
        content_type: Seq<char>,
    |
        drive.is_proper() && drive.entry(folder, name) is None && is_content_type(
            content_type,
        ) ==> {
            let (after, answer) = #[trigger] host(
                drive,
                create_file_model(config, folder, name, content, content_type),
            );
            &&& answer matches Ok(reply)
            &&& reply.status == 200
            &&& after.entry(folder, name) matches Some(file)
            &&& drive.is_new(file.id, folder)
            &&& after == drive.with_entry(folder, name, file).with_content(file.id, content)
        }
}

/// Files can be written, read and deleted by their ids.
pub open spec fn keeps_files(host: Host, config: ConfigModel) -> bool {
    &&& forall|drive: Drive, id: Seq<char>, content: Seq<u8>, content_type: Seq<char>|
        {
            let (after, answer) = #[trigger] host(
                drive,
                update_model(config, id, content, content_type),
            );
            &&& answer matches Ok(reply)
            &&& reply.status == 200
            &&& after == drive.with_content(id, content)
        }
    &&& forall|drive: Drive, id: Seq<char>|
        drive.contents.contains_key(id) ==> {
            let (after, answer) = #[trigger] host(drive, media_model(config, id));
            &&& after == drive
            &&& answer matches Ok(reply)
            &&& reply.status == 200
            &&& reply_bytes(reply) == Ok::<Seq<u8>, Seq<char>>(drive.contents[id])
            &&& forall|text: Seq<char>|
                drive.contents[id] == #[trigger] encode_utf8(text) ==> reply.body == text
        }
    &&& forall|drive: Drive, id: Seq<char>|
        {
            let (after, answer) = #[trigger] host(drive, delete_model(config, id));
            &&& answer matches Ok(reply)
            &&& reply.status == 204
            &&& after == drive.without(id)
        }
}

/// The names of everything in a folder, each of them once.
pub open spec fn is_listing_of(names: Seq<Seq<char>>, drive: Drive, folder: Seq<char>) -> bool {
    &&& names.no_duplicates()
    &&& forall|name: Seq<char>| #[trigger]
        names.contains(name) <==> drive.entry(folder, name) is Some
}

/// The answers to the requests for the pages of a folder: the first one without a
/// token, and each of the others with the token that came with the one before it.
pub open spec fn serves_pages(
    host: Host,
    config: ConfigModel,
    drive: Drive,
    folder: Seq<char>,
    pages: Seq<Seq<Seq<char>>>,
    tokens: Seq<Seq<char>>,
) -> bool {
    &&& pages.len() == tokens.len() + 1
    &&& forall|i: int|
        0 <= i < pages.len() ==> {
            let token = if i == 0 {
                None
            } else {
                Some(tokens[i - 1])
            };
            let (after, answer) = host(drive, list_model(config, folder, token));
            &&& after == drive
            &&& answer matches Ok(reply)
            &&& listed_page(reply) == Ok::<ListPageModel, Seq<char>>(
                ListPageModel {
                    names: #[trigger] pages[i],
                    token: if i < tokens.len() {
                        Some(tokens[i])
                    } else {
                        None
                    },
                },
            )
        }
}

/// The folder is listed, on as many pages as it takes.
pub open spec fn is_listed(
    host: Host,
    config: ConfigModel,
    drive: Drive,
    folder: Seq<char>,
) -> bool {
    exists|pages: Seq<Seq<Seq<char>>>, tokens: Seq<Seq<char>>|
        is_listing_of(joined(pages), drive, folder) && #[trigger] serves_pages(
            host,
            config,
            drive,
            folder,
            pages,
            tokens,
        )
}

/// Folders are listed.
pub open spec fn lists(host: Host, config: ConfigModel) -> bool {
    forall|drive: Drive, folder: Seq<char>|
        drive.is_proper() ==> #[trigger] is_listed(host, config, drive, folder)
}

/// Of a file that stands in one place it is told which folder that is, and the
/// file can be moved to where nothing stands yet.
pub open spec fn moves(host: Host, config: ConfigModel) -> bool {
    &&& forall|drive: Drive, folder: Seq<char>, name: Seq<char>, id: Seq<char>|
        (drive.entry(folder, name) matches Some(file) && file.id == id && drive.stands_alone(
            folder,
            name,
        )) ==> {
            let (after, answer) = #[trigger] host(drive, parents_model(config, id));
            &&& after == drive
            &&& answer matches Ok(reply)
            &&& (#[trigger] drive.entry(folder, name)) is Some
            &&& told_parent(reply) == folder
        }
    &&& forall|
        drive: Drive,
        folder: Seq<char>,
        name: Seq<char>,
        id: Seq<char>,
        into: Seq<char>,
        new_name: Seq<char>,
    |
        (drive.entry(folder, name) matches Some(file) && file.id == id && drive.stands_alone(
            folder,
            name,
        ) && drive.entry(into, new_name) is None && is_plain(id) && is_plain(into)) ==> {
            let (after, answer) = #[trigger] host(
                drive,
                move_model(config, id, into, folder, new_name),
            );
            &&& answer matches Ok(reply)
            &&& reply.status == 200
            &&& (#[trigger] drive.entry(folder, name)) is Some
            &&& after == drive.moved((folder, name), (into, new_name))
        }
}

/// What comes of the pages of a listing when they are served: what the drive holds
/// after them, and the listing. None where there are more than `n` of them.
pub open spec fn paged(listing: ListingModel, host: Host, drive: Drive, n: nat) -> Option<
    (Drive, Listed),
>
    decreases n,
{
    if n == 0 {
        None
    } else {
        let (after, answer) = host(
            drive,
            list_model(listing.config, listing.folder, listing.token),
        );
        match answer {
            Err(message) => Some((after, Err(message))),
            Ok(reply) => match listed_page(reply) {
                Err(message) => Some((after, Err(message))),
                Ok(page) => match page.token {
                    Some(token) => paged(
                        ListingModel {
                            names: listing.names + page.names,
                            token: Some(token),
                            ..listing
                        },
                        host,
                        after,
                        (n - 1) as nat,
                    ),
                    None => Some((after, Ok(listing.names + page.names))),
                },
            },
        }
    }
}

/// What a plan does when its requests are served: what the drive holds after it,
/// and its result. None where the plan asks for anything but requests, or for
/// pages without an end.
pub open spec fn served<R>(plan: Plan<R>, host: Host, drive: Drive) -> Option<(Drive, R)>
    decreases plan,
{
    match plan {
        Plan::Return(result) => Some((drive, result)),
        Plan::Http(request, next) => {
            let (after, answer) = host(drive, request);
            served(next(answer), host, after)
        },
        Plan::Listing(listing, next) => if exists|n: nat| paged(listing, host, drive, n) is Some {
            let n = choose|n: nat| paged(listing, host, drive, n) is Some;
            let (after, listed) = paged(listing, host, drive, n)->Some_0;
            served(next(listed), host, after)
        } else {
            None
        },
        _ => None,
    }
}

pub proof fn lemma_served_in_sequence<A, B>(
    plan: Plan<A>,
    rest: spec_fn(A) -> Plan<B>,
    host: Host,
    drive: Drive,
)
    ensures
        served(bind(plan, rest), host, drive) == match served(plan, host, drive) {
            Some((after, result)) => served(rest(result), host, after),
            None => None,
        },
    decreases plan,
{
    match plan {
        Plan::Return(_) => {},
        Plan::Http(request, next) => {
            let (after, answer) = host(drive, request);
            lemma_served_in_sequence(next(answer), rest, host, after);
        },
        Plan::Listing(listing, next) => if exists|n: nat| paged(listing, host, drive, n) is Some {
            let n = choose|n: nat| paged(listing, host, drive, n) is Some;
            let (after, listed) = paged(listing, host, drive, n)->Some_0;
            lemma_served_in_sequence(next(listed), rest, host, after);
        },
        _ => {},
    }
}

/// The pages do not depend on how many there may be.
proof fn lemma_paged_once(listing: ListingModel, host: Host, drive: Drive, n: nat, m: nat)
    requires
        paged(listing, host, drive, n) is Some,
        paged(listing, host, drive, m) is Some,
    ensures
        paged(listing, host, drive, n) == paged(listing, host, drive, m),
    decreases n,
{
    let (after, answer) = host(drive, list_model(listing.config, listing.folder, listing.token));
    if let Ok(reply) = answer {
        if let Ok(page) = listed_page(reply) {
            if let Some(token) = page.token {
                let more = ListingModel {
                    names: listing.names + page.names,
                    token: Some(token),
                    ..listing
                };
                lemma_paged_once(more, host, after, (n - 1) as nat, (m - 1) as nat);
            }
        }
    }
}

/// A listing comes to the names on all the pages.
proof fn lemma_paged(
    host: Host,
    config: ConfigModel,
    drive: Drive,
    folder: Seq<char>,
    pages: Seq<Seq<Seq<char>>>,
    tokens: Seq<Seq<char>>,
    k: int,
)
    requires
        serves_pages(host, config, drive, folder, pages, tokens),
        0 <= k < pages.len(),
    ensures
        paged(
            ListingModel {
                config,
                folder,
                names: joined(pages.take(k)),
                token: if k == 0 {
                    None
                } else {
                    Some(tokens[k - 1])
                },
            },
            host,
            drive,
            (pages.len() - k) as nat,
        ) == Some((drive, Ok::<Seq<Seq<char>>, Seq<char>>(joined(pages)))),
    decreases pages.len() - k,
{
    let page = pages[k];
    assert(pages.take(k + 1).drop_last() =~= pages.take(k));
    assert(pages.take(k + 1).last() == page);
    if k + 1 < pages.len() {
        lemma_paged(host, config, drive, folder, pages, tokens, k + 1);
    } else {
        assert(pages.take(k + 1) =~= pages);
    }
}

// ---------------------------------------------------------------------------
// Paths
// ---------------------------------------------------------------------------

/// What the components of a path lead to, down from a folder.
pub open spec fn lookup(drive: Drive, folder: Seq<char>, parts: Seq<Seq<char>>) -> Found
    decreases parts.len(),
{
    if parts.len() == 0 {
        Ok(Some(FileRefModel { id: folder, is_folder: true }))
    } else {
        match drive.entry(folder, parts[0]) {
            None => Ok(None),
            Some(file) => if parts.len() <= 1 {
                Ok(Some(file))
            } else if !file.is_folder {
                Err("Path component '"@ + parts[0] + "' is not a folder"@)
            } else {
                lookup(drive, file.id, parts.skip(1))
            },
        }
    }
}

proof fn lemma_resolve(
    host: Host,
    config: ConfigModel,
    drive: Drive,
    folder: Seq<char>,
    parts: Seq<Seq<char>>,
)
    requires
        finds(host, config),
    ensures
        served(resolve_parts(config, folder, parts), host, drive) == Some(
            (drive, lookup(drive, folder, parts)),
        ),
    decreases parts.len(),
{
    let plan = resolve_parts(config, folder, parts);
    if parts.len() > 0 {
        let (after, answer) = host(drive, find_file_model(config, folder, parts[0]));
        let next = after_search(config, parts, answer);
        assert(plan->Http_1(answer) == next);
        assert(served(plan, host, drive) == served(next, host, drive));
        if let Some(file) = drive.entry(folder, parts[0]) {
            if parts.len() > 1 && file.is_folder {
                lemma_resolve(host, config, drive, file.id, parts.skip(1));
            }
        }
    }
}

/// Nothing but folders stands on the way, as far as it goes.
pub open spec fn is_clear(drive: Drive, folder: Seq<char>, names: Seq<Seq<char>>) -> bool
    decreases names.len(),
{
    names.len() == 0 || match drive.entry(folder, names[0]) {
        None => true,
        Some(file) => file.is_folder && is_clear(drive, file.id, names.skip(1)),
    }
}

/// The way goes through something with the id, or to it.
pub open spec fn passes(
    drive: Drive,
    folder: Seq<char>,
    parts: Seq<Seq<char>>,
    id: Seq<char>,
) -> bool
    decreases parts.len(),
{
    parts.len() > 0 && match drive.entry(folder, parts[0]) {
        Some(step) => step.id == id || (step.is_folder && passes(
            drive,
            step.id,
            parts.skip(1),
            id,
        )),
        None => false,
    }
}

/// What was in a folder is there still, and what is new has a new id.
spec fn extends(after: Drive, before: Drive) -> bool {
    &&& after.contents == before.contents
    &&& forall|folder: Seq<char>, name: Seq<char>|
        before.entry(folder, name) is Some ==> #[trigger] after.entry(folder, name)
            == before.entry(folder, name)
    &&& forall|folder: Seq<char>, name: Seq<char>|
        before.entry(folder, name) is None && (#[trigger] after.entry(folder, name)) is Some
            ==> !before.has_id(after.entry(folder, name)->Some_0.id)
}

proof fn lemma_extends_is_transitive(after: Drive, mid: Drive, before: Drive)
    requires
        extends(after, mid),
        extends(mid, before),
    ensures
        extends(after, before),
{
    assert forall|folder: Seq<char>, name: Seq<char>|
        before.entry(folder, name) is Some implies #[trigger] after.entry(folder, name)
            == before.entry(folder, name) by {
        assert(mid.entry(folder, name) == before.entry(folder, name));
    }
    assert forall|folder: Seq<char>, name: Seq<char>|
        before.entry(folder, name) is None && (#[trigger] after.entry(folder, name))
            is Some implies !before.has_id(after.entry(folder, name)->Some_0.id) by {
        let id = after.entry(folder, name)->Some_0.id;
        assert(mid.entry(folder, name) is Some ==> mid.entry(folder, name) == after.entry(
            folder,
            name,
        ));
        if before.has_id(id) {
            let (other, alias) = choose|other: Seq<char>, alias: Seq<char>|
                (#[trigger] before.entry(other, alias)) matches Some(file) && file.id == id;
            assert(mid.entry(other, alias) == before.entry(other, alias));
            assert(mid.has_id(id));
        }
    }
}

proof fn lemma_lookup_extends(
    after: Drive,
    before: Drive,
    folder: Seq<char>,
    parts: Seq<Seq<char>>,
)
    requires
        forall|folder: Seq<char>, name: Seq<char>|
            before.entry(folder, name) is Some ==> #[trigger] after.entry(folder, name)
                == before.entry(folder, name),
        lookup(before, folder, parts) matches Ok(Some(_)),
    ensures
        lookup(after, folder, parts) == lookup(before, folder, parts),
    decreases parts.len(),
{
    if parts.len() > 1 {
        assert(after.entry(folder, parts[0]) == before.entry(folder, parts[0]));
        let file = before.entry(folder, parts[0])->Some_0;
        lemma_lookup_extends(after, before, file.id, parts.skip(1));
    } else if parts.len() == 1 {
        assert(after.entry(folder, parts[0]) == before.entry(folder, parts[0]));
    }
}

/// One more component is looked up in the folder that the others lead to.
proof fn lemma_lookup_last(
    drive: Drive,
    folder: Seq<char>,
    names: Seq<Seq<char>>,
    id: Seq<char>,
    last: Seq<char>,
)
    requires
        lookup(drive, folder, names) == Ok::<Option<FileRefModel>, Seq<char>>(
            Some(FileRefModel { id, is_folder: true }),
        ),
    ensures
        lookup(drive, folder, names.push(last)) == Ok::<Option<FileRefModel>, Seq<char>>(
            drive.entry(id, last),
        ),
    decreases names.len(),
{
    let parts = names.push(last);
    if names.len() > 0 {
        let file = drive.entry(folder, names[0])->Some_0;
        assert(parts[0] == names[0]);
        assert(parts.skip(1) =~= names.skip(1).push(last));
        if names.len() == 1 {
            assert(names.skip(1) =~= Seq::empty());
            assert(lookup(drive, file.id, names.skip(1)) == Ok::<Option<FileRefModel>, Seq<char>>(
                Some(FileRefModel { id: file.id, is_folder: true }),
            ));
        }
        lemma_lookup_last(drive, file.id, names.skip(1), id, last);
    }
}

// ---------------------------------------------------------------------------
// Folders
// ---------------------------------------------------------------------------

/// The folder of a name in a folder, found or created, and the drive then.
spec fn opened(
    host: Host,
    config: ConfigModel,
    drive: Drive,
    folder: Seq<char>,
    name: Seq<char>,
) -> (Drive, Folder) {
    match drive.entry(folder, name) {
        Some(file) => (drive, Ok(file.id)),
        None => {
            let (after, answer) = host(drive, create_folder_model(config, folder, name));
            (after, after_folder_creation(answer))
        },
    }
}

proof fn lemma_get_or_create_folder(
    host: Host,
    config: ConfigModel,
    drive: Drive,
    folder: Seq<char>,
    name: Seq<char>,
)
    requires
        finds(host, config),
        drive.entry(folder, name) matches Some(file) ==> file.is_folder,
    ensures
        served(get_or_create_folder_plan(config, folder, name), host, drive) == Some(
            opened(host, config, drive, folder, name),
        ),
{
    let plan = get_or_create_folder_plan(config, folder, name);
    let (same, found) = host(drive, find_folder_model(config, folder, name));
    let second = after_folder_search(config, folder, name, found);
    assert(plan->Http_1(found) == second);
    assert(served(plan, host, drive) == served(second, host, drive));
    if drive.entry(folder, name) is None {
        let (after, answer) = host(drive, create_folder_model(config, folder, name));
        let third = Plan::Return(after_folder_creation(answer));
        assert(second->Http_1(answer) == third);
        assert(served(second, host, drive) == served(third, host, after));
    }
}

/// What making folders leaves behind: the folders, and nothing else that is new
/// on a way that led to nothing before.
spec fn are_made(
    before: Drive,
    folder: Seq<char>,
    names: Seq<Seq<char>>,
    after: Drive,
    id: Seq<char>,
) -> bool {
    &&& after.is_proper()
    &&& extends(after, before)
    &&& lookup(after, folder, names) == Ok::<Option<FileRefModel>, Seq<char>>(
        Some(FileRefModel { id, is_folder: true }),
    )
    &&& forall|last: Seq<char>|
        lookup(before, folder, #[trigger] names.push(last)) == Ok::<
            Option<FileRefModel>,
            Seq<char>,
        >(None) ==> after.entry(id, last) is None
    &&& forall|other: Seq<char>|
        before.has_id(other) && !passes(before, folder, names, other) ==> !#[trigger] passes(
            after,
            folder,
            names,
            other,
        )
}

proof fn lemma_make_folders(
    host: Host,
    config: ConfigModel,
    drive: Drive,
    folder: Seq<char>,
    names: Seq<Seq<char>>,
)
    requires
        finds(host, config),
        creates(host, config),
        drive.is_proper(),
        is_clear(drive, folder, names),
    ensures
        served(make_folders(config, folder, names), host, drive) matches Some((after, Ok(id)))
            && are_made(drive, folder, names, after, id),
    decreases names.len(),
{
    if names.len() == 0 {
        assert forall|last: Seq<char>|
            lookup(drive, folder, #[trigger] names.push(last)) == Ok::<
                Option<FileRefModel>,
                Seq<char>,
            >(None) implies drive.entry(folder, last) is None by {
            assert(names.push(last)[0] == last);
        }
        assert(are_made(drive, folder, names, drive, folder));
    } else {
        let name = names[0];
        let others = names.skip(1);
        let (mid, opening) = opened(host, config, drive, folder, name);
        let rest = folder_rest(config, names);
        lemma_get_or_create_folder(host, config, drive, folder, name);
        lemma_served_in_sequence(
            get_or_create_folder_plan(config, folder, name),
            rest,
            host,
            drive,
        );
        assert(rest(opening) == after_folder(config, names, opening));
        assert(drive.entry(folder, name) is None ==> mid == host(
            drive,
            create_folder_model(config, folder, name),
        ).0);
        let id = opening->Ok_0;
        assert(mid.entry(folder, name) == Some(FileRefModel { id, is_folder: true }));
        assert(extends(mid, drive));
        assert(mid.is_proper());
        if drive.entry(folder, name) is None {
            assert forall|inner: Seq<char>| #[trigger] mid.entry(id, inner) is None by {
                assert(drive.entry(id, inner) is None);
            }
        }
        lemma_make_folders(host, config, mid, id, others);
        let (after, made) = served(make_folders(config, id, others), host, mid)->Some_0;
        let end = made->Ok_0;
        assert(served(make_folders(config, folder, names), host, drive) == Some((after, made))) by {
            if names.len() == 1 {
                assert(others =~= Seq::empty());
            }
        }
        lemma_extends_is_transitive(after, mid, drive);
        assert(after.entry(folder, name) == mid.entry(folder, name));
        assert forall|last: Seq<char>|
            lookup(drive, folder, #[trigger] names.push(last)) == Ok::<
                Option<FileRefModel>,
                Seq<char>,
            >(None) implies after.entry(end, last) is None by {
            assert(names.push(last)[0] == name);
            assert(names.push(last).skip(1) =~= others.push(last));
            if drive.entry(folder, name) is None {
                assert(mid.entry(id, others.push(last)[0]) is None);
            }
            assert(lookup(mid, id, others.push(last)) == Ok::<Option<FileRefModel>, Seq<char>>(
                None,
            ));
        }
        assert forall|other: Seq<char>|
            drive.has_id(other) && !passes(drive, folder, names, other) implies !#[trigger] passes(
            after,
            folder,
            names,
            other,
        ) by {
            let (place, alias) = choose|place: Seq<char>, alias: Seq<char>|
                (#[trigger] drive.entry(place, alias)) matches Some(file) && file.id == other;
            assert(mid.entry(place, alias) == drive.entry(place, alias));
            assert(mid.has_id(other));
            if drive.entry(folder, name) is None {
                if others.len() > 0 {
                    assert(mid.entry(id, others[0]) is None);
                }
            } else {
                assert(mid == drive);
            }
            assert(!passes(mid, id, others, other));
            assert(!passes(after, id, others, other));
        }
        assert(are_made(drive, folder, names, after, end));
    }
}

/// The way to a component is clear where looking it up meets no fault.
proof fn lemma_way_is_clear(drive: Drive, folder: Seq<char>, parts: Seq<Seq<char>>)
    requires
        parts.len() > 0,
        lookup(drive, folder, parts) is Ok,
    ensures
        is_clear(drive, folder, parts.drop_last()),
    decreases parts.len(),
{
    let names = parts.drop_last();
    if names.len() > 0 {
        assert(names[0] == parts[0]);
        if let Some(file) = drive.entry(folder, parts[0]) {
            assert(names.skip(1) =~= parts.skip(1).drop_last());
            lemma_way_is_clear(drive, file.id, parts.skip(1));
        }
    }
}

// ---------------------------------------------------------------------------
// Laws
// ---------------------------------------------------------------------------

/// What an operation on a path does: its goal, with what the path leads to.
proof fn lemma_path_plan(
    host: Host,
    config: ConfigModel,
    drive: Drive,
    path: Seq<char>,
    goal: GoalModel,
)
    requires
        finds(host, config),
    ensures
        served(path_plan(config, path, goal), host, drive) == served(
            after_resolve(
                config,
                goal,
                lookup(drive, config.root_folder_id, path_parts(path)),
            ),
            host,
            drive,
        ),
{
    reveal(path_plan);
    let rest = goal_rest(config, goal);
    let found = lookup(drive, config.root_folder_id, path_parts(path));
    lemma_resolve(host, config, drive, config.root_folder_id, path_parts(path));
    lemma_served_in_sequence(resolve_path_plan(config, path), rest, host, drive);
    assert(rest(found) == after_resolve(config, goal, found));
}

proof fn lemma_last_request(
    host: Host,
    drive: Drive,
    request: HttpRequestModel,
    ending: Ending,
)
    ensures
        ({
            let (after, answer) = host(drive, request);
            served(last_request(request, ending), host, drive) == Some(
                (after, conclusion(ending, answer)),
            )
        }),
{
    let (after, answer) = host(drive, request);
    let plan = last_request(request, ending);
    let next = Plan::Return(conclusion(ending, answer));
    assert(plan->Http_1(answer) == next);
    assert(served(plan, host, drive) == served(next, host, after));
}

/// Reading finds the content of the file that the path leads to, as bytes and,
/// where it is text, as text.
pub proof fn law_reading_finds_the_content(
    host: Host,
    config: ConfigModel,
    drive: Drive,
    path: Seq<char>,
    file: FileRefModel,
)
    requires
        finds(host, config),
        keeps_files(host, config),
        lookup(drive, config.root_folder_id, path_parts(path)) == Ok::<
            Option<FileRefModel>,
            Seq<char>,
        >(Some(file)),
        drive.contents.contains_key(file.id),
    ensures
        served(read_binary_plan(config, path), host, drive) == Some(
            (drive, Ok::<OpModel, Seq<char>>(OpModel::Bytes(drive.contents[file.id]))),
        ),
        forall|text: Seq<char>|
            drive.contents[file.id] == #[trigger] encode_utf8(text) ==> served(
                read_file_plan(config, path),
                host,
                drive,
            ) == Some((drive, Ok::<OpModel, Seq<char>>(OpModel::Text(text)))),
{
    let request = media_model(config, file.id);
    let (after, answer) = host(drive, request);
    lemma_path_plan(host, config, drive, path, GoalModel::ReadBytes { path });
    lemma_last_request(host, drive, request, Ending::ReadBytes);
    lemma_path_plan(host, config, drive, path, GoalModel::ReadText { path });
    lemma_last_request(host, drive, request, Ending::ReadText);
}

/// Everything that stood in the drive stands where it stood.
pub open spec fn keeps_entries(after: Drive, before: Drive) -> bool {
    forall|folder: Seq<char>, name: Seq<char>|
        before.entry(folder, name) is Some ==> #[trigger] after.entry(folder, name)
            == before.entry(folder, name)
}

/// The contents of all files but one are what they were.
pub open spec fn keeps_other_contents(after: Drive, before: Drive, id: Seq<char>) -> bool {
    forall|other: Seq<char>|
        other != id ==> {
            &&& #[trigger] after.contents.contains_key(other) <==> before.contents.contains_key(
                other,
            )
            &&& before.contents.contains_key(other) ==> after.contents[other]
                == before.contents[other]
        }
}

/// What writing leaves behind: the path leads to a file with the content.
spec fn is_written(drive: Drive, config: ConfigModel, path: Seq<char>, content: Seq<u8>) -> bool {
    &&& lookup(drive, config.root_folder_id, path_parts(path)) matches Ok(Some(file))
    &&& drive.contents.contains_key(file.id)
    &&& drive.contents[file.id] == content
}

proof fn lemma_writing(
    host: Host,
    config: ConfigModel,
    drive: Drive,
    path: Seq<char>,
    content: Seq<u8>,
    content_type: Seq<char>,
)
    requires
        finds(host, config),
        creates(host, config),
        keeps_files(host, config),
        drive.is_proper(),
        is_content_type(content_type),
    ensures
        served(write_bytes_plan(config, path, content, content_type), host, drive) matches Some(
            (after, outcome),
        ) && match lookup(drive, config.root_folder_id, path_parts(path)) {
            Ok(_) => outcome == Ok::<OpModel, Seq<char>>(OpModel::Nothing) && is_written(
                after,
                config,
                path,
                content,
            ) && keeps_entries(after, drive) && keeps_other_contents(
                after,
                drive,
                lookup(after, config.root_folder_id, path_parts(path))->Ok_0->Some_0.id,
            ),
            Err(message) => after == drive && outcome == Err::<OpModel, Seq<char>>(message),
        },
{
    let root = config.root_folder_id;
    let parts = path_parts(path);
    let goal = GoalModel::Write { path, content, content_type };
    lemma_path_plan(host, config, drive, path, goal);
    match lookup(drive, root, parts) {
        Ok(Some(file)) => {
            let request = update_model(config, file.id, content, content_type);
            let (after, answer) = host(drive, request);
            lemma_last_request(host, drive, request, Ending::Update);
            lemma_lookup_extends(after, drive, root, parts);
            assert(is_written(after, config, path, content));
            assert(keeps_entries(after, drive));
            assert(keeps_other_contents(after, drive, file.id));
        },
        Ok(None) => {
            let names = folder_names(path);
            let name = last_name(path);
            let errand = ErrandModel::CreateFile { name, content, content_type };
            let rest = errand_rest(config, errand);
            law_last_name_is_last_part(path);
            assert(parts =~= names.push(name));
            lemma_way_is_clear(drive, root, parts);
            lemma_make_folders(host, config, drive, root, names);
            let (mid, made) = served(make_folders(config, root, names), host, drive)->Some_0;
            let id = made->Ok_0;
            lemma_served_in_sequence(make_folders(config, root, names), rest, host, drive);
            assert(rest(made) == after_folders(config, errand, made));
            let request = create_file_model(config, id, name, content, content_type);
            lemma_last_request(host, mid, request, Ending::Create);
            let (after, answer) = host(mid, request);
            assert(mid.entry(id, name) is None);
            lemma_lookup_extends(after, mid, root, names);
            lemma_lookup_last(after, root, names, id, name);
            assert(is_written(after, config, path, content));
            let file = after.entry(id, name)->Some_0;
            assert(keeps_entries(mid, drive));
            assert(keeps_entries(after, mid));
            assert forall|folder: Seq<char>, other: Seq<char>|
                drive.entry(folder, other) is Some implies #[trigger] after.entry(folder, other)
                == drive.entry(folder, other) by {
                assert(mid.entry(folder, other) == drive.entry(folder, other));
            }
            assert(keeps_other_contents(after, drive, file.id));
        },
        Err(_) => {},
    }
}

/// What was written is read back: wherever no file stands in place of a folder on
/// the way, a write succeeds, and reading the path afterwards gives the content.
/// Everything else stays where it is and as it is.
pub proof fn law_read_gives_back_what_was_written(
    host: Host,
    config: ConfigModel,
    drive: Drive,
    path: Seq<char>,
    content: Seq<u8>,
    content_type: Seq<char>,
)
    requires
        finds(host, config),
        creates(host, config),
        keeps_files(host, config),
        drive.is_proper(),
        is_content_type(content_type),
    ensures
        served(write_bytes_plan(config, path, content, content_type), host, drive) matches Some(
            (after, outcome),
        ) && match lookup(drive, config.root_folder_id, path_parts(path)) {
            Ok(_) => {
                &&& outcome == Ok::<OpModel, Seq<char>>(OpModel::Nothing)
                &&& keeps_entries(after, drive)
                &&& keeps_other_contents(
                    after,
                    drive,
                    lookup(after, config.root_folder_id, path_parts(path))->Ok_0->Some_0.id,
                )
                &&& served(read_binary_plan(config, path), host, after) == Some(
                    (after, Ok::<OpModel, Seq<char>>(OpModel::Bytes(content))),
                )
                &&& served(exists_plan(config, path), host, after) == Some(
                    (after, Ok::<OpModel, Seq<char>>(OpModel::Exists(true))),
                )
                &&& forall|text: Seq<char>|
                    content == #[trigger] encode_utf8(text) ==> served(
                        read_file_plan(config, path),
                        host,
                        after,
                    ) == Some((after, Ok::<OpModel, Seq<char>>(OpModel::Text(text))))
            },
            Err(message) => after == drive && outcome == Err::<OpModel, Seq<char>>(message),
        },
{
    let root = config.root_folder_id;
    lemma_writing(host, config, drive, path, content, content_type);
    let (after, _) = served(
        write_bytes_plan(config, path, content, content_type),
        host,
        drive,
    )->Some_0;
    if lookup(drive, root, path_parts(path)) is Ok {
        let file = (lookup(after, root, path_parts(path))->Ok_0)->Some_0;
        law_reading_finds_the_content(host, config, after, path, file);
        lemma_path_plan(host, config, after, path, GoalModel::Exists);
    }
}

/// Folders that were made are there: wherever nothing but folders stands on the
/// way, all of them are made, and the path leads to a folder afterwards. Everything
/// else stays where it is and as it is.
pub proof fn law_made_folders_are_there(
    host: Host,
    config: ConfigModel,
    drive: Drive,
    path: Seq<char>,
)
    requires
        finds(host, config),
        creates(host, config),
        drive.is_proper(),
        is_clear(drive, config.root_folder_id, path_parts(path)),
    ensures
        served(create_dir_all_plan(config, path), host, drive) matches Some((after, outcome)) && {
            &&& outcome == Ok::<OpModel, Seq<char>>(OpModel::Nothing)
            &&& keeps_entries(after, drive)
            &&& after.contents == drive.contents
            &&& served(is_dir_plan(config, path), host, after) == Some(
                (after, Ok::<OpModel, Seq<char>>(OpModel::IsDir(true))),
            )
        },
{
    let root = config.root_folder_id;
    let parts = path_parts(path);
    let rest = errand_rest(config, ErrandModel::Nothing);
    lemma_make_folders(host, config, drive, root, parts);
    let (after, made) = served(make_folders(config, root, parts), host, drive)->Some_0;
    lemma_served_in_sequence(make_folders(config, root, parts), rest, host, drive);
    assert(rest(made) == after_folders(config, ErrandModel::Nothing, made));
    lemma_path_plan(host, config, after, path, GoalModel::IsDir);
}

proof fn lemma_lookup_without(drive: Drive, folder: Seq<char>, parts: Seq<Seq<char>>, id: Seq<char>)
    requires
        parts.len() > 0,
        lookup(drive, folder, parts) matches Ok(Some(file)) && file.id == id,
    ensures
        lookup(drive.without(id), folder, parts) == Ok::<Option<FileRefModel>, Seq<char>>(None),
    decreases parts.len(),
{
    let after = drive.without(id);
    let file = drive.entry(folder, parts[0])->Some_0;
    if parts.len() > 1 {
        lemma_lookup_without(drive, file.id, parts.skip(1), id);
        assert(file.id != id ==> after.entry(folder, parts[0]) == Some(file));
        assert(file.id == id ==> after.entry(folder, parts[0]) is None);
    } else {
        assert(after.entry(folder, parts[0]) is None);
    }
}

/// What was deleted is gone, and nothing else is. To delete what is not there succeeds
/// too, and changes nothing.
pub proof fn law_deleted_files_are_gone(
    host: Host,
    config: ConfigModel,
    drive: Drive,
    path: Seq<char>,
)
    requires
        finds(host, config),
        keeps_files(host, config),
        path_parts(path).len() > 0,
        lookup(drive, config.root_folder_id, path_parts(path)) is Ok,
    ensures
        served(delete_file_plan(config, path), host, drive) matches Some((after, outcome)) && {
            &&& outcome == Ok::<OpModel, Seq<char>>(OpModel::Nothing)
            &&& served(exists_plan(config, path), host, after) == Some(
                (after, Ok::<OpModel, Seq<char>>(OpModel::Exists(false))),
            )
            &&& lookup(drive, config.root_folder_id, path_parts(path)) == Ok::<
                Option<FileRefModel>,
                Seq<char>,
            >(None) ==> after == drive
            &&& lookup(drive, config.root_folder_id, path_parts(path)) matches Ok(Some(file))
                ==> after == drive.without(file.id)
        },
{
    let root = config.root_folder_id;
    let parts = path_parts(path);
    lemma_path_plan(host, config, drive, path, GoalModel::Delete);
    if let Ok(Some(file)) = lookup(drive, root, parts) {
        let request = delete_model(config, file.id);
        let (after, answer) = host(drive, request);
        lemma_last_request(host, drive, request, Ending::Delete);
        lemma_lookup_without(drive, root, parts, file.id);
        lemma_path_plan(host, config, after, path, GoalModel::Exists);
    } else {
        lemma_path_plan(host, config, drive, path, GoalModel::Exists);
    }
}

/// The folder and the name that the last step of a lookup goes through.
proof fn lemma_place(drive: Drive, folder: Seq<char>, parts: Seq<Seq<char>>) -> (place: (
    Seq<char>,
    Seq<char>,
))
    requires
        parts.len() > 0,
        lookup(drive, folder, parts) matches Ok(Some(_)),
    ensures
        lookup(drive, folder, parts) == Ok::<Option<FileRefModel>, Seq<char>>(
            drive.entry(place.0, place.1),
        ),
    decreases parts.len(),
{
    if parts.len() == 1 {
        (folder, parts[0])
    } else {
        lemma_place(drive, drive.entry(folder, parts[0])->Some_0.id, parts.skip(1))
    }
}

/// A way that goes on in the folder that it leads to.
proof fn lemma_lookup_joins(
    drive: Drive,
    folder: Seq<char>,
    names: Seq<Seq<char>>,
    id: Seq<char>,
    parts: Seq<Seq<char>>,
)
    requires
        parts.len() > 0,
        lookup(drive, folder, names) == Ok::<Option<FileRefModel>, Seq<char>>(
            Some(FileRefModel { id, is_folder: true }),
        ),
    ensures
        lookup(drive, folder, names + parts) == lookup(drive, id, parts),
    decreases names.len(),
{
    let all = names + parts;
    if names.len() == 0 {
        assert(all =~= parts);
    } else {
        let step = drive.entry(folder, names[0])->Some_0;
        assert(all[0] == names[0]);
        assert(all.skip(1) =~= names.skip(1) + parts);
        if names.len() == 1 {
            assert(names.skip(1) =~= Seq::empty());
            assert(lookup(drive, step.id, names.skip(1)) == Ok::<Option<FileRefModel>, Seq<char>>(
                Some(FileRefModel { id: step.id, is_folder: true }),
            ));
        }
        lemma_lookup_joins(drive, step.id, names.skip(1), id, parts);
    }
}

/// Where a way led somewhere before, it goes through the same things still.
proof fn lemma_passes_extends(
    after: Drive,
    before: Drive,
    folder: Seq<char>,
    parts: Seq<Seq<char>>,
    id: Seq<char>,
)
    requires
        extends(after, before),
        lookup(before, folder, parts) matches Ok(Some(_)),
        !passes(before, folder, parts, id),
    ensures
        !passes(after, folder, parts, id),
    decreases parts.len(),
{
    if parts.len() > 0 {
        let step = before.entry(folder, parts[0])->Some_0;
        assert(after.entry(folder, parts[0]) == before.entry(folder, parts[0]));
        if parts.len() > 1 {
            lemma_passes_extends(after, before, step.id, parts.skip(1), id);
        }
        assert(!passes(after, step.id, parts.skip(1), id) || parts.len() > 1);
    }
}

/// Moving something leaves every way that does not go through it as it is.
proof fn lemma_moving_keeps_other_ways(
    drive: Drive,
    folder: Seq<char>,
    parts: Seq<Seq<char>>,
    from: (Seq<char>, Seq<char>),
    to: (Seq<char>, Seq<char>),
)
    requires
        lookup(drive, folder, parts) matches Ok(Some(_)),
        drive.entry(from.0, from.1) matches Some(file) && !passes(drive, folder, parts, file.id),
        drive.entry(to.0, to.1) is None,
    ensures
        lookup(drive.moved(from, to), folder, parts) == lookup(drive, folder, parts),
    decreases parts.len(),
{
    let after = drive.moved(from, to);
    if parts.len() > 0 {
        let step = drive.entry(folder, parts[0])->Some_0;
        assert(from != (folder, parts[0]));
        assert(to != (folder, parts[0]));
        assert(after.entry(folder, parts[0]) == Some(step));
        if parts.len() > 1 {
            lemma_moving_keeps_other_ways(drive, step.id, parts.skip(1), from, to);
        }
    }
}

/// Moving something leaves nothing where it stood.
proof fn lemma_moving_takes_away(
    drive: Drive,
    folder: Seq<char>,
    parts: Seq<Seq<char>>,
    from: (Seq<char>, Seq<char>),
    to: (Seq<char>, Seq<char>),
)
    requires
        parts.len() > 0,
        drive.entry(from.0, from.1) matches Some(file) && lookup(drive, folder, parts) == Ok::<
            Option<FileRefModel>,
            Seq<char>,
        >(Some(file)),
        drive.stands_alone(from.0, from.1),
        drive.entry(to.0, to.1) is None,
    ensures
        lookup(drive.moved(from, to), folder, parts) == Ok::<Option<FileRefModel>, Seq<char>>(None),
    decreases parts.len(),
{
    let after = drive.moved(from, to);
    let step = drive.entry(folder, parts[0])->Some_0;
    assert(to != (folder, parts[0]));
    if from == (folder, parts[0]) {
        assert(after.entry(folder, parts[0]) is None);
    } else {
        assert(after.entry(folder, parts[0]) == Some(step));
        assert(parts.len() > 1);
        lemma_moving_takes_away(drive, step.id, parts.skip(1), from, to);
    }
}

/// A way that leads to nothing does not go through a file that is no folder.
proof fn lemma_no_way_through_files(
    drive: Drive,
    folder: Seq<char>,
    parts: Seq<Seq<char>>,
    place: (Seq<char>, Seq<char>),
)
    requires
        drive.entry(place.0, place.1) matches Some(file) && !file.is_folder,
        drive.stands_alone(place.0, place.1),
        lookup(drive, folder, parts) == Ok::<Option<FileRefModel>, Seq<char>>(None),
    ensures
        !passes(drive, folder, parts, drive.entry(place.0, place.1)->Some_0.id),
    decreases parts.len(),
{
    if parts.len() > 0 {
        if let Some(step) = drive.entry(folder, parts[0]) {
            if step.is_folder && parts.len() > 1 {
                lemma_no_way_through_files(drive, step.id, parts.skip(1), place);
            }
        }
    }
}

/// The way to the folder is the first part of the way to what is in it.
proof fn lemma_passes_names(
    drive: Drive,
    folder: Seq<char>,
    names: Seq<Seq<char>>,
    last: Seq<char>,
    id: Seq<char>,
)
    requires
        !passes(drive, folder, names.push(last), id),
    ensures
        !passes(drive, folder, names, id),
    decreases names.len(),
{
    if names.len() > 0 {
        assert(names.push(last)[0] == names[0]);
        assert(names.push(last).skip(1) =~= names.skip(1).push(last));
        if let Some(step) = drive.entry(folder, names[0]) {
            if step.id != id && step.is_folder {
                lemma_passes_names(drive, step.id, names.skip(1), last, id);
            }
        }
    }
}

/// What was moved is at its new path and is gone from the old one: a file with its
/// content, a folder with what is in it. It may be moved to where nothing stands
/// yet, from the one place where it stands, and a folder not into itself. Everything
/// else stays where it is and as it is.
#[verifier::rlimit(40)]
pub proof fn law_what_was_moved_is_at_its_new_path(
    host: Host,
    config: ConfigModel,
    drive: Drive,
    from: Seq<char>,
    to: Seq<char>,
    file: FileRefModel,
)
    requires
        finds(host, config),
        creates(host, config),
        keeps_files(host, config),
        moves(host, config),
        drive.is_proper(),
        is_plain(config.root_folder_id),
        path_parts(from).len() > 0,
        lookup(drive, config.root_folder_id, path_parts(from)) == Ok::<
            Option<FileRefModel>,
            Seq<char>,
        >(Some(file)),
        forall|folder: Seq<char>, name: Seq<char>|
            (#[trigger] drive.entry(folder, name)) == Some(file) ==> drive.stands_alone(
                folder,
                name,
            ),
        lookup(drive, config.root_folder_id, path_parts(to)) == Ok::<
            Option<FileRefModel>,
            Seq<char>,
        >(None),
        file.is_folder ==> !passes(drive, config.root_folder_id, path_parts(to), file.id),
    ensures
        served(move_file_plan(config, from, to), host, drive) matches Some((after, outcome)) && {
            &&& outcome == Ok::<OpModel, Seq<char>>(OpModel::Nothing)
            &&& after.contents == drive.contents
            &&& forall|folder: Seq<char>, name: Seq<char>|
                drive.entry(folder, name) is Some && drive.entry(folder, name) != Some(file)
                    ==> #[trigger] after.entry(folder, name) == drive.entry(folder, name)
            &&& served(exists_plan(config, from), host, after) == Some(
                (after, Ok::<OpModel, Seq<char>>(OpModel::Exists(false))),
            )
            &&& served(is_dir_plan(config, to), host, after) == Some(
                (after, Ok::<OpModel, Seq<char>>(OpModel::IsDir(file.is_folder))),
            )
            &&& drive.contents.contains_key(file.id) ==> served(
                read_binary_plan(config, to),
                host,
                after,
            ) == Some((after, Ok::<OpModel, Seq<char>>(OpModel::Bytes(drive.contents[file.id]))))
            &&& forall|inner: Seq<Seq<char>>|
                file.is_folder && inner.len() > 0 && (lookup(drive, file.id, inner) matches Ok(
                    Some(_),
                )) && !passes(drive, file.id, inner, file.id) ==> #[trigger] lookup(
                    after,
                    config.root_folder_id,
                    path_parts(to) + inner,
                ) == lookup(drive, config.root_folder_id, path_parts(from) + inner)
        },
{
    let root = config.root_folder_id;
    let goal = GoalModel::Move { from, to };
    let names = folder_names(to);
    let name = last_name(to);
    let errand = ErrandModel::MoveFile { id: file.id, name };
    let rest = errand_rest(config, errand);
    lemma_path_plan(host, config, drive, from, goal);

    // The file stands in one place, and the new path does not go through it.
    let place = lemma_place(drive, root, path_parts(from));
    assert(drive.stands_alone(place.0, place.1));
    assert(drive.has_id(file.id));
    if !file.is_folder {
        lemma_no_way_through_files(drive, root, path_parts(to), place);
    }

    // The folders of the new path.
    law_last_name_is_last_part(to);
    assert(path_parts(to) =~= names.push(name));
    lemma_passes_names(drive, root, names, name, file.id);
    lemma_way_is_clear(drive, root, path_parts(to));
    lemma_make_folders(host, config, drive, root, names);
    let (mid, made) = served(make_folders(config, root, names), host, drive)->Some_0;
    let into = made->Ok_0;
    lemma_served_in_sequence(make_folders(config, root, names), rest, host, drive);
    let asking = after_folders(config, errand, made);
    assert(rest(made) == asking);
    assert(!passes(mid, root, names, file.id));
    assert(is_plain(into)) by {
        if names.len() > 0 {
            let last = lemma_place(mid, root, names);
            assert(mid.entry(last.0, last.1) is Some);
        }
    }

    // The file stands where it stood, and nowhere else.
    assert(mid.entry(place.0, place.1) == Some(file));
    assert(mid.stands_alone(place.0, place.1));
    lemma_lookup_extends(mid, drive, root, path_parts(from));

    // It is asked for its folder and then moved.
    let (same, told) = host(mid, parents_model(config, file.id));
    let moving = after_parents(config, file.id, into, name, told);
    assert(asking->Http_1(told) == moving);
    assert(served(asking, host, mid) == served(moving, host, mid));
    let request = move_model(config, file.id, into, place.0, name);
    lemma_last_request(host, mid, request, Ending::Move);
    let (after, _) = host(mid, request);
    let target = (into, name);
    assert(after == mid.moved(place, target));
    assert forall|folder: Seq<char>, other: Seq<char>|
        drive.entry(folder, other) is Some && drive.entry(folder, other) != Some(
            file,
        ) implies #[trigger] after.entry(folder, other) == drive.entry(folder, other) by {
        assert(mid.entry(folder, other) == drive.entry(folder, other));
    }

    // What is where then.
    lemma_moving_keeps_other_ways(mid, root, names, place, target);
    lemma_lookup_last(after, root, names, into, name);
    lemma_moving_takes_away(mid, root, path_parts(from), place, target);
    lemma_path_plan(host, config, after, from, GoalModel::Exists);
    lemma_path_plan(host, config, after, to, GoalModel::IsDir);
    if drive.contents.contains_key(file.id) {
        law_reading_finds_the_content(host, config, after, to, file);
    }
    if file.is_folder {
        assert forall|inner: Seq<Seq<char>>|
            inner.len() > 0 && (lookup(drive, file.id, inner) matches Ok(Some(_))) && !passes(
                drive,
                file.id,
                inner,
                file.id,
            ) implies #[trigger] lookup(after, root, path_parts(to) + inner) == lookup(
            drive,
            root,
            path_parts(from) + inner,
        ) by {
            lemma_lookup_joins(drive, root, path_parts(from), file.id, inner);
            lemma_lookup_extends(mid, drive, file.id, inner);
            lemma_passes_extends(mid, drive, file.id, inner, file.id);
            lemma_moving_keeps_other_ways(mid, file.id, inner, place, target);
            lemma_lookup_joins(after, root, path_parts(to), file.id, inner);
        }
    }
}

/// A listing names everything in the folder once, on however many pages, and a
/// listing of Markdown files what of it ends in `.md`.
pub proof fn law_listings_name_what_is_there(
    host: Host,
    config: ConfigModel,
    drive: Drive,
    dir: Seq<char>,
    folder: Seq<char>,
)
    requires
        finds(host, config),
        lists(host, config),
        drive.is_proper(),
        lookup(drive, config.root_folder_id, path_parts(dir)) == Ok::<
            Option<FileRefModel>,
            Seq<char>,
        >(Some(FileRefModel { id: folder, is_folder: true })),
    ensures
        served(list_files_plan(config, dir), host, drive) matches Some(
            (after, Ok(OpModel::Names(listed))),
        ) && {
            &&& after == drive
            &&& is_listing_of(listed, drive, folder)
            &&& served(list_md_files_plan(config, dir), host, drive) == Some(
                (drive, Ok::<OpModel, Seq<char>>(OpModel::Names(markdown_names(listed)))),
            )
        },
{
    assert(is_listed(host, config, drive, folder));
    let (pages, tokens) = choose|pages: Seq<Seq<Seq<char>>>, tokens: Seq<Seq<char>>|
        is_listing_of(joined(pages), drive, folder) && #[trigger] serves_pages(
            host,
            config,
            drive,
            folder,
            pages,
            tokens,
        );
    let first = ListingModel { config, folder, names: Seq::empty(), token: None };
    let names = Ok::<Seq<Seq<char>>, Seq<char>>(joined(pages));
    lemma_paged(host, config, drive, folder, pages, tokens, 0);
    assert(pages.take(0) =~= Seq::empty());
    assert(paged(first, host, drive, pages.len()) == Some((drive, names)));
    let n = choose|n: nat| paged(first, host, drive, n) is Some;
    lemma_paged_once(first, host, drive, n, pages.len());
    lemma_path_plan(host, config, drive, dir, GoalModel::List { dir });
    lemma_path_plan(host, config, drive, dir, GoalModel::ListMarkdown { dir });
    lemma_listing_served(host, config, drive, folder, false, joined(pages));
    lemma_listing_served(host, config, drive, folder, true, joined(pages));
}

proof fn lemma_listing_served(
    host: Host,
    config: ConfigModel,
    drive: Drive,
    folder: Seq<char>,
    markdown: bool,
    names: Seq<Seq<char>>,
)
    requires
        ({
            let first = ListingModel { config, folder, names: Seq::empty(), token: None };
            let n = choose|n: nat| paged(first, host, drive, n) is Some;
            paged(first, host, drive, n) == Some((drive, Ok::<Seq<Seq<char>>, Seq<char>>(names)))
        }),
    ensures
        served(listing_plan(config, folder, markdown), host, drive) == Some(
            (drive, listing_outcome(markdown, Ok::<Seq<Seq<char>>, Seq<char>>(names))),
        ),
{
    let first = ListingModel { config, folder, names: Seq::empty(), token: None };
    let n = choose|n: nat| paged(first, host, drive, n) is Some;
    let listed = Ok::<Seq<Seq<char>>, Seq<char>>(names);
    let plan = listing_plan(config, folder, markdown);
    let end = Plan::Return(listing_outcome(markdown, listed));
    assert(paged(first, host, drive, n) is Some);
    assert(plan->Listing_1(listed) == end);
    assert(served(plan, host, drive) == served(end, host, drive));
}

// ---------------------------------------------------------------------------
// Where a path leads
// ---------------------------------------------------------------------------

/// What leads nowhere cannot be read or moved, which is told with the path; it does
/// not exist, is no folder, has no time and holds no names, and to delete it is no
/// problem. Nothing changes.
pub proof fn law_paths_that_lead_nowhere(
    host: Host,
    config: ConfigModel,
    drive: Drive,
    path: Seq<char>,
    to: Seq<char>,
)
    requires
        finds(host, config),
        lookup(drive, config.root_folder_id, path_parts(path)) == Ok::<
            Option<FileRefModel>,
            Seq<char>,
        >(None),
    ensures
        served(read_file_plan(config, path), host, drive) == Some(
            (drive, Err::<OpModel, Seq<char>>("NotFound: "@ + path)),
        ),
        served(read_binary_plan(config, path), host, drive) == Some(
            (drive, Err::<OpModel, Seq<char>>("NotFound: "@ + path)),
        ),
        served(move_file_plan(config, path, to), host, drive) == Some(
            (drive, Err::<OpModel, Seq<char>>("NotFound: "@ + path)),
        ),
        served(exists_plan(config, path), host, drive) == Some(
            (drive, Ok::<OpModel, Seq<char>>(OpModel::Exists(false))),
        ),
        served(is_dir_plan(config, path), host, drive) == Some(
            (drive, Ok::<OpModel, Seq<char>>(OpModel::IsDir(false))),
        ),
        served(modified_time_plan(config, path), host, drive) == Some(
            (drive, Ok::<OpModel, Seq<char>>(OpModel::Time(None))),
        ),
        served(list_files_plan(config, path), host, drive) == Some(
            (drive, Ok::<OpModel, Seq<char>>(OpModel::Names(Seq::empty()))),
        ),
        served(list_md_files_plan(config, path), host, drive) == Some(
            (drive, Ok::<OpModel, Seq<char>>(OpModel::Names(Seq::empty()))),
        ),
        served(delete_file_plan(config, path), host, drive) == Some(
            (drive, Ok::<OpModel, Seq<char>>(OpModel::Nothing)),
        ),
{
    lemma_path_plan(host, config, drive, path, GoalModel::ReadText { path });
    lemma_path_plan(host, config, drive, path, GoalModel::ReadBytes { path });
    lemma_path_plan(host, config, drive, path, GoalModel::Move { from: path, to });
    lemma_path_plan(host, config, drive, path, GoalModel::Exists);
    lemma_path_plan(host, config, drive, path, GoalModel::IsDir);
    lemma_path_plan(host, config, drive, path, GoalModel::ModifiedTime);
    lemma_path_plan(host, config, drive, path, GoalModel::List { dir: path });
    lemma_path_plan(host, config, drive, path, GoalModel::ListMarkdown { dir: path });
    lemma_path_plan(host, config, drive, path, GoalModel::Delete);
}

/// What leads to something exists, is a folder or not, and has the time that the
/// reply for it tells. A file cannot be listed, which is told with the path.
pub proof fn law_paths_that_lead_to_something(
    host: Host,
    config: ConfigModel,
    drive: Drive,
    path: Seq<char>,
    file: FileRefModel,
)
    requires
        finds(host, config),
        lookup(drive, config.root_folder_id, path_parts(path)) == Ok::<
            Option<FileRefModel>,
            Seq<char>,
        >(Some(file)),
    ensures
        served(exists_plan(config, path), host, drive) == Some(
            (drive, Ok::<OpModel, Seq<char>>(OpModel::Exists(true))),
        ),
        served(is_dir_plan(config, path), host, drive) == Some(
            (drive, Ok::<OpModel, Seq<char>>(OpModel::IsDir(file.is_folder))),
        ),
        !file.is_folder ==> served(list_files_plan(config, path), host, drive) == Some(
            (drive, Err::<OpModel, Seq<char>>("Not a directory: "@ + path)),
        ),
        !file.is_folder ==> served(list_md_files_plan(config, path), host, drive) == Some(
            (drive, Err::<OpModel, Seq<char>>("Not a directory: "@ + path)),
        ),
        ({
            let (after, answer) = host(drive, modified_model(config, file.id));
            answer matches Ok(reply) ==> served(modified_time_plan(config, path), host, drive)
                == Some((after, Ok::<OpModel, Seq<char>>(OpModel::Time(told_time(reply)))))
        }),
{
    lemma_path_plan(host, config, drive, path, GoalModel::Exists);
    lemma_path_plan(host, config, drive, path, GoalModel::IsDir);
    lemma_path_plan(host, config, drive, path, GoalModel::List { dir: path });
    lemma_path_plan(host, config, drive, path, GoalModel::ListMarkdown { dir: path });
    lemma_path_plan(host, config, drive, path, GoalModel::ModifiedTime);
    lemma_last_request(host, drive, modified_model(config, file.id), Ending::ModifiedTime);
}

/// Where a file stands in place of a folder on the way, every operation on the path
/// ends with the message that it is no folder, and nothing changes.
pub proof fn law_paths_through_files(
    host: Host,
    config: ConfigModel,
    drive: Drive,
    path: Seq<char>,
    problem: Seq<char>,
    goal: GoalModel,
)
    requires
        finds(host, config),
        lookup(drive, config.root_folder_id, path_parts(path)) == Err::<
            Option<FileRefModel>,
            Seq<char>,
        >(problem),
    ensures
        served(path_plan(config, path, goal), host, drive) == Some(
            (drive, Err::<OpModel, Seq<char>>(problem)),
        ),
{
    lemma_path_plan(host, config, drive, path, goal);
}

} // verus!
