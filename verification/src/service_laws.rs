//! The commands on the storage, from their parameters to their answers, against a
//! Google Drive that does what it is asked.
use crate::answer_laws::{
    answers, gives, gives_bytes, is_answered, law_commands_act_on_their_path,
    law_operations_are_on_their_path, law_other_commands_run_their_operation,
    law_outcomes_are_answered, runs,
};
use crate::base64_text::base64_encoded;
use crate::commands::OperationModel;
use crate::config::ConfigModel;
use crate::dispatch::{dispatch_plan, operation_plan, operation_rest};
use crate::drive_plans::OpModel;
use crate::drive_replies::FileRefModel;
use crate::filesystem_laws::{
    is_clear, is_listing_of, is_plain, law_deleted_files_are_gone, law_listings_name_what_is_there,
    law_made_folders_are_there, law_paths_that_lead_nowhere, law_read_gives_back_what_was_written,
    law_what_was_moved_is_at_its_new_path, lemma_served_in_sequence, lookup, moves, served, Drive,
    Host,
};
use crate::google_laws::{law_google_serves_the_requests, Google};
use crate::json::Json;
use crate::path::path_parts;
use crate::settings_laws::is_refused;
use vstd::prelude::*;
use vstd::string::*;
use vstd::utf8::encode_utf8;

verus! {

/// The command ends with the configuration as it was, what the drive holds then, and
/// an answer.
pub open spec fn answers_with(
    host: Host,
    config: ConfigModel,
    drive: Drive,
    command: Seq<char>,
    params: Json,
    after: Drive,
    data: Option<Json>,
) -> bool {
    served(dispatch_plan(Some(config), command, params), host, drive) matches Some((then, end))
        && then == after && end.config == Some(config) && is_answered(end, data)
}

/// The command ends with the configuration as it was, what the drive held, and a
/// message of what went wrong.
pub open spec fn refuses_with(
    host: Host,
    config: ConfigModel,
    drive: Drive,
    command: Seq<char>,
    params: Json,
    message: Seq<char>,
) -> bool {
    served(dispatch_plan(Some(config), command, params), host, drive) matches Some((then, end))
        && then == drive && end.config == Some(config) && is_refused(end, message)
}

proof fn lemma_command(
    host: Host,
    config: ConfigModel,
    drive: Drive,
    command: Seq<char>,
    params: Json,
    operation: OperationModel,
)
    requires
        runs(config, command, params, operation),
    ensures
        served(dispatch_plan(Some(config), command, params), host, drive) == match served(
            operation_plan(config, operation),
            host,
            drive,
        ) {
            Some((after, outcome)) => served(operation_rest(config)(outcome), host, after),
            None => None,
        },
{
    lemma_served_in_sequence(
        operation_plan(config, operation),
        operation_rest(config),
        host,
        drive,
    );
}

/// A text that a command writes to a path is answered when the path is read: as text,
/// and as bytes in base64. The file exists from then on. So are bytes that are
/// written in base64.
pub proof fn law_what_is_written_is_answered(
    google: Google,
    config: ConfigModel,
    drive: Drive,
    writing: Json,
    reading: Json,
    path: Seq<char>,
    content: Seq<char>,
    text: Seq<char>,
    data: Seq<u8>,
)
    requires
        google.is_sound(),
        config.access_token == google.token,
        drive.is_proper(),
        gives(writing, "path"@, path),
        gives(reading, "path"@, path),
        lookup(drive, config.root_folder_id, path_parts(path)) is Ok,
    ensures
        gives(writing, "content"@, content) ==> exists|after: Drive|
            {
                &&& #[trigger] answers_with(
                    google.host(),
                    config,
                    drive,
                    "WriteFile"@,
                    writing,
                    after,
                    None,
                )
                &&& answers_with(
                    google.host(),
                    config,
                    after,
                    "ReadFile"@,
                    reading,
                    after,
                    Some(Json::Record(map!["content"@ => Json::Text(content)])),
                )
                &&& answers_with(
                    google.host(),
                    config,
                    after,
                    "ReadBinary"@,
                    reading,
                    after,
                    Some(
                        Json::Record(
                            map!["data"@ => Json::Text(base64_encoded(encode_utf8(content)))],
                        ),
                    ),
                )
                &&& answers_with(
                    google.host(),
                    config,
                    after,
                    "Exists"@,
                    reading,
                    after,
                    Some(Json::Record(map!["exists"@ => Json::Bool(true)])),
                )
            },
        gives_bytes(writing, text, data) ==> exists|after: Drive|
            {
                &&& #[trigger] answers_with(
                    google.host(),
                    config,
                    drive,
                    "WriteBinary"@,
                    writing,
                    after,
                    None,
                )
                &&& answers_with(
                    google.host(),
                    config,
                    after,
                    "ReadBinary"@,
                    reading,
                    after,
                    Some(Json::Record(map!["data"@ => Json::Text(base64_encoded(data))])),
                )
            },
{
    let host = google.host();
    let bytes = encode_utf8(content);
    law_google_serves_the_requests(google, config);
    law_commands_act_on_their_path(config, writing, path);
    law_commands_act_on_their_path(config, reading, path);
    law_operations_are_on_their_path(config, path, path, content, data);
    law_outcomes_are_answered(config, content, bytes, true, Seq::empty(), 0);
    law_outcomes_are_answered(config, content, data, true, Seq::empty(), 0);
    if gives(writing, "content"@, content) {
        law_read_gives_back_what_was_written(
            host,
            config,
            drive,
            path,
            bytes,
            "text/plain; charset=utf-8"@,
        );
        let operation = OperationModel::WriteFile { path, content };
        let after = served(operation_plan(config, operation), host, drive)->Some_0.0;
        lemma_command(host, config, drive, "WriteFile"@, writing, operation);
        lemma_command(
            host,
            config,
            after,
            "ReadFile"@,
            reading,
            OperationModel::ReadFile { path },
        );
        lemma_command(
            host,
            config,
            after,
            "ReadBinary"@,
            reading,
            OperationModel::ReadBinary { path },
        );
        lemma_command(host, config, after, "Exists"@, reading, OperationModel::Exists { path });
        assert(answers_with(host, config, drive, "WriteFile"@, writing, after, None));
    }
    if gives_bytes(writing, text, data) {
        law_read_gives_back_what_was_written(
            host,
            config,
            drive,
            path,
            data,
            "application/octet-stream"@,
        );
        let operation = OperationModel::WriteBinary { path, data };
        let after = served(operation_plan(config, operation), host, drive)->Some_0.0;
        lemma_command(host, config, drive, "WriteBinary"@, writing, operation);
        lemma_command(
            host,
            config,
            after,
            "ReadBinary"@,
            reading,
            OperationModel::ReadBinary { path },
        );
        assert(answers_with(host, config, drive, "WriteBinary"@, writing, after, None));
    }
}

/// What a command deletes does not exist from then on, and folders that a command
/// makes are there from then on.
pub proof fn law_deleting_and_making_are_answered(
    google: Google,
    config: ConfigModel,
    drive: Drive,
    params: Json,
    path: Seq<char>,
)
    requires
        google.is_sound(),
        config.access_token == google.token,
        drive.is_proper(),
        gives(params, "path"@, path),
    ensures
        path_parts(path).len() > 0 && lookup(drive, config.root_folder_id, path_parts(path)) is Ok
            ==> exists|after: Drive|
            {
                &&& #[trigger] answers_with(
                    google.host(),
                    config,
                    drive,
                    "DeleteFile"@,
                    params,
                    after,
                    None,
                )
                &&& answers_with(
                    google.host(),
                    config,
                    after,
                    "Exists"@,
                    params,
                    after,
                    Some(Json::Record(map!["exists"@ => Json::Bool(false)])),
                )
            },
        is_clear(drive, config.root_folder_id, path_parts(path)) ==> exists|after: Drive|
            {
                &&& #[trigger] answers_with(
                    google.host(),
                    config,
                    drive,
                    "CreateDirAll"@,
                    params,
                    after,
                    None,
                )
                &&& answers_with(
                    google.host(),
                    config,
                    after,
                    "IsDir"@,
                    params,
                    after,
                    Some(Json::Record(map!["isDir"@ => Json::Bool(true)])),
                )
            },
{
    let host = google.host();
    law_google_serves_the_requests(google, config);
    law_commands_act_on_their_path(config, params, path);
    law_operations_are_on_their_path(config, path, path, path, Seq::empty());
    law_outcomes_are_answered(config, path, Seq::empty(), true, Seq::empty(), 0);
    law_outcomes_are_answered(config, path, Seq::empty(), false, Seq::empty(), 0);
    if path_parts(path).len() > 0 && lookup(drive, config.root_folder_id, path_parts(path)) is Ok {
        law_deleted_files_are_gone(host, config, drive, path);
        let operation = OperationModel::DeleteFile { path };
        let after = served(operation_plan(config, operation), host, drive)->Some_0.0;
        lemma_command(host, config, drive, "DeleteFile"@, params, operation);
        lemma_command(host, config, after, "Exists"@, params, OperationModel::Exists { path });
        assert(answers_with(host, config, drive, "DeleteFile"@, params, after, None));
    }
    if is_clear(drive, config.root_folder_id, path_parts(path)) {
        law_made_folders_are_there(host, config, drive, path);
        let operation = OperationModel::CreateDirAll { path };
        let after = served(operation_plan(config, operation), host, drive)->Some_0.0;
        lemma_command(host, config, drive, "CreateDirAll"@, params, operation);
        lemma_command(host, config, after, "IsDir"@, params, OperationModel::IsDir { path });
        assert(answers_with(host, config, drive, "CreateDirAll"@, params, after, None));
    }
}

/// What a command moves exists at the new path from then on, with its content, and no
/// longer at the old one. It may be moved to another name in the same folder.
pub proof fn law_moving_is_answered(
    google: Google,
    config: ConfigModel,
    drive: Drive,
    params: Json,
    old: Json,
    new: Json,
    from: Seq<char>,
    to: Seq<char>,
    file: FileRefModel,
)
    requires
        google.is_sound(),
        config.access_token == google.token,
        drive.is_proper(),
        gives(params, "from"@, from),
        gives(params, "to"@, to),
        gives(old, "path"@, from),
        gives(new, "path"@, to),
        is_plain(config.root_folder_id),
        path_parts(from).len() > 0,
        lookup(drive, config.root_folder_id, path_parts(from)) == Ok::<
            Option<FileRefModel>,
            Seq<char>,
        >(Some(file)),
        !file.is_folder,
        drive.contents.contains_key(file.id),
        forall|folder: Seq<char>, name: Seq<char>|
            (#[trigger] drive.entry(folder, name)) == Some(file) ==> drive.stands_alone(
                folder,
                name,
            ),
        lookup(drive, config.root_folder_id, path_parts(to)) == Ok::<
            Option<FileRefModel>,
            Seq<char>,
        >(None),
    ensures
        exists|after: Drive|
            {
                &&& #[trigger] answers_with(
                    google.host(),
                    config,
                    drive,
                    "MoveFile"@,
                    params,
                    after,
                    None,
                )
                &&& answers_with(
                    google.host(),
                    config,
                    after,
                    "Exists"@,
                    old,
                    after,
                    Some(Json::Record(map!["exists"@ => Json::Bool(false)])),
                )
                &&& answers_with(
                    google.host(),
                    config,
                    after,
                    "ReadBinary"@,
                    new,
                    after,
                    Some(
                        Json::Record(
                            map!["data"@ => Json::Text(base64_encoded(drive.contents[file.id]))],
                        ),
                    ),
                )
            },
{
    let host = google.host();
    law_google_serves_the_requests(google, config);
    law_other_commands_run_their_operation(config, params);
    law_commands_act_on_their_path(config, old, from);
    law_commands_act_on_their_path(config, new, to);
    law_operations_are_on_their_path(config, from, to, from, Seq::empty());
    law_operations_are_on_their_path(config, to, from, from, Seq::empty());
    law_outcomes_are_answered(config, from, drive.contents[file.id], false, Seq::empty(), 0);
    law_what_was_moved_is_at_its_new_path(host, config, drive, from, to, file);
    let operation = OperationModel::MoveFile { from, to };
    let after = served(operation_plan(config, operation), host, drive)->Some_0.0;
    lemma_command(host, config, drive, "MoveFile"@, params, operation);
    lemma_command(host, config, after, "Exists"@, old, OperationModel::Exists { path: from });
    lemma_command(
        host,
        config,
        after,
        "ReadBinary"@,
        new,
        OperationModel::ReadBinary { path: to },
    );
    assert(answers_with(host, config, drive, "MoveFile"@, params, after, None));
}

/// A folder that is listed is answered with the names of everything in it, each once,
/// and with those of them that end in `.md`. Nothing changes.
pub proof fn law_listing_is_answered(
    google: Google,
    config: ConfigModel,
    drive: Drive,
    params: Json,
    dir: Seq<char>,
    folder: Seq<char>,
)
    requires
        google.is_sound(),
        config.access_token == google.token,
        drive.is_proper(),
        gives(params, "dir"@, dir),
        lookup(drive, config.root_folder_id, path_parts(dir)) == Ok::<
            Option<FileRefModel>,
            Seq<char>,
        >(Some(FileRefModel { id: folder, is_folder: true })),
    ensures
        exists|names: Seq<Seq<char>>, items: Seq<Json>|
            {
                &&& #[trigger] is_listing_of(names, drive, folder)
                &&& #[trigger] answers_with(
                    google.host(),
                    config,
                    drive,
                    "ListFiles"@,
                    params,
                    drive,
                    Some(Json::Record(map!["files"@ => Json::List(items)])),
                )
                &&& items.len() == names.len()
                &&& forall|i: int| 0 <= i < items.len() ==> items[i] == Json::Text(names[i])
            },
{
    let host = google.host();
    law_google_serves_the_requests(google, config);
    law_other_commands_run_their_operation(config, params);
    law_operations_are_on_their_path(config, dir, dir, dir, Seq::empty());
    law_listings_name_what_is_there(host, config, drive, dir, folder);
    let operation = OperationModel::ListFiles { dir };
    let (after, outcome) = served(operation_plan(config, operation), host, drive)->Some_0;
    let names = outcome->Ok_0->Names_0;
    law_outcomes_are_answered(config, dir, Seq::empty(), true, names, 0);
    lemma_command(host, config, drive, "ListFiles"@, params, operation);
    let items = choose|items: Seq<Json>|
        {
            &&& #[trigger] answers(
                config,
                OpModel::Names(names),
                Some(Json::Record(map!["files"@ => Json::List(items)])),
            )
            &&& items.len() == names.len()
            &&& forall|i: int| 0 <= i < items.len() ==> items[i] == Json::Text(names[i])
        };
    assert(is_listing_of(names, drive, folder));
    assert(answers_with(
        host,
        config,
        drive,
        "ListFiles"@,
        params,
        drive,
        Some(Json::Record(map!["files"@ => Json::List(items)])),
    ));
}

/// A path that leads nowhere is answered so, and nothing changes.
pub proof fn law_missing_files_are_answered(
    google: Google,
    config: ConfigModel,
    drive: Drive,
    params: Json,
    path: Seq<char>,
)
    requires
        google.is_sound(),
        config.access_token == google.token,
        gives(params, "path"@, path),
        lookup(drive, config.root_folder_id, path_parts(path)) == Ok::<
            Option<FileRefModel>,
            Seq<char>,
        >(None),
    ensures
        refuses_with(
            google.host(),
            config,
            drive,
            "ReadFile"@,
            params,
            "NotFound: "@ + path,
        ),
        refuses_with(
            google.host(),
            config,
            drive,
            "ReadBinary"@,
            params,
            "NotFound: "@ + path,
        ),
        answers_with(
            google.host(),
            config,
            drive,
            "GetModifiedTime"@,
            params,
            drive,
            Some(Json::Record(map!["time"@ => Json::Null])),
        ),
{
    let host = google.host();
    law_google_serves_the_requests(google, config);
    law_commands_act_on_their_path(config, params, path);
    law_operations_are_on_their_path(config, path, path, path, Seq::empty());
    law_paths_that_lead_nowhere(host, config, drive, path, path);
    law_outcomes_are_answered(config, "NotFound: "@ + path, Seq::empty(), true, Seq::empty(), 0);
    lemma_command(host, config, drive, "ReadFile"@, params, OperationModel::ReadFile { path });
    lemma_command(host, config, drive, "ReadBinary"@, params, OperationModel::ReadBinary { path });
    lemma_command(
        host,
        config,
        drive,
        "GetModifiedTime"@,
        params,
        OperationModel::GetModifiedTime { path },
    );
}

} // verus!
