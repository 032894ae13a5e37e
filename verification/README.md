# coursework

A priority work queue, the decisions of a dog picture fetcher, and a student
record, written in Rust and verified with Verus.

- `src/task.rs`: tasks, priorities, payloads, and the messages for failed tasks.
- `src/model.rs`: the work queue as mathematics.
- `src/queue.rs`: the work queue itself, with the decisions that a worker takes.
- `src/laws.rs`: what holds of the queue over any course of operations.
- `src/simple_payload.rs`: a payload for trying the queue out.
- `src/dog_image.rs`: what each reply means when a picture is fetched and saved.
- `src/student.rs`: a student record.
- `src/text.rs`: decimal numbers and quoted strings.
- `app/`: the programs around the library: threads, network, disk and terminal.
