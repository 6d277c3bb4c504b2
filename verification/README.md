# carpem

A terminal organiser for tasks, tags and calendar events. The library in `src/`
holds its logic, written in Verus and proved against its contracts:

- `date`, `parser`, `date_input`, `date_text`: calendar arithmetic, the date
  notation typed by the user, and the texts dates are shown with.
- `task`, `event`, `task_order`, `sorting`, `task_manager`, `event_manager`:
  the records, their order, recurring events and the in-memory managers.
- `storage`, `sample`, `editor`: the SQL text the store runs, the checks on what
  it answers, sample data and the editor text format of a task.
- `keys`, `config`, `style`, `app_state`: key notation, key bindings and styles.
- `calendar_widget`, `multi_list`, `table_widget`, `prompts`: what the month calendar,
  the lists and the tables show in an area, and the texts of the prompts.
- `ui_navigation`, `components`, `action` and the
  `*_view` / `day_list` / `info_views` modules: the state machines behind each
  part of the screen, from state and event to next state and requests.

`app/` is the thin program around it: command-line handling, the SQLite store
and JSON (de)serialisation. `tests/` runs the library on concrete values.
