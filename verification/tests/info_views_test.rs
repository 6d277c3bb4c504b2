use carpem::action::Action;
use carpem::date::{CivilDate, DateTime, TimeDelta, TimeOfDay};
use carpem::info_views::{CurrentTagsInfo, CurrentTaskInfo, CustomFilterInfo, TagsInfoRequest};
use carpem::task::{Status, Tag, Task};

fn task(id: Option<i64>) -> Task {
    let day = DateTime {
        date: CivilDate { year: 2025, month: 1, day: 1 },
        time: TimeOfDay { hour: 0, minute: 0, second: 0, nanosecond: 0 },
    };
    Task::new(id, "t", "d", 0, vec![], Status::Backlog, day, None, None, None, None)
}

#[test]
fn tags_of_the_current_task() {
    let mut info = CurrentTagsInfo::new();
    assert!(info.update(&Action::UpdateTagsInInfo).request.is_none());
    let step = info.update(&Action::DeleteTagsFromTask);
    assert!(step.request.is_none());
    assert_eq!(step.actions.len(), 1);
    assert_eq!(info.update(&Action::CurrentTaskUpdated(None, None)).request, Some(TagsInfoRequest::TakeTask));
    assert_eq!(info.update_current_task(Some(task(Some(8))), Some(2)), Some(8));
    info.set_tags(vec![Tag::new(Some(1), "a")]);
    assert_eq!(info.update(&Action::UpdateTagsInInfo).request, Some(TagsInfoRequest::ReadTags(8)));
    assert_eq!(info.update(&Action::AddTagsToTask).request, Some(TagsInfoRequest::AddTags));
    assert_eq!(info.update(&Action::DeleteTagsFromTask).request, Some(TagsInfoRequest::DeleteTags));
    info.update(&Action::NextTagInTask);
    assert_eq!(info.list_state.current_index, Some(0));
    assert_eq!(CurrentTagsInfo::delete_reply(true).actions.len(), 3);
    assert_eq!(info.update_current_task(Some(task(None)), None), None);
    assert_eq!(info.current_tags.len(), 1);
    assert!(info.update(&Action::AddTagsToTask).request.is_none());
    assert_eq!(info.update_current_task(None, None), None);
    assert!(info.current_tags.is_empty());
}

#[test]
fn filter_information() {
    let mut info = CustomFilterInfo::new();
    assert_eq!(
        info.lines(),
        vec!["", "o no status filter active", "", "o hide completed tasks: [ ]", "", "o show only tasks without tags: [ ]"]
    );
    assert!(!info.update(&Action::HideAllStatus(true)));
    assert!(info.update(&Action::CustomFilterUpdated));
    info.set_custom_filter(Some("status == 'x'".to_string()));
    let lines = info.lines();
    assert_eq!(lines[1], "status == 'x'");
    assert_eq!(lines[3], "o hide completed tasks: [x]");
    info.update(&Action::ShowOnlyTaglessStatus(true));
    assert_eq!(info.lines()[5], "o show only tasks without tags: [x]");
}

#[test]
fn time_taken_texts() {
    assert_eq!(CurrentTaskInfo::time_taken(TimeDelta { secs: 3725, nanos: 0 }), "01:02:05 (HH:MM:SS)");
    assert_eq!(CurrentTaskInfo::time_taken(TimeDelta { secs: 0, nanos: 5 }), "00:00:00 (HH:MM:SS)");
    assert_eq!(CurrentTaskInfo::time_taken(TimeDelta { secs: 360000, nanos: 0 }), "100:00:00 (HH:MM:SS)");
    assert_eq!(CurrentTaskInfo::time_taken(TimeDelta { secs: -3661, nanos: 0 }), "-1:-1:-1 (HH:MM:SS)");
    assert_eq!(CurrentTaskInfo::time_taken(TimeDelta { secs: -61, nanos: 500_000_000 }), "00:-1:00 (HH:MM:SS)");
    let mut info = CurrentTaskInfo::new();
    info.update_current_task(Some(task(Some(1))));
    assert!(info.current_task.is_some());
}
