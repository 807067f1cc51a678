# mcadmin

Administration tools of a small game server, as a verified library and a thin
program around it.

- `src/` (verified with Verus):
  - `text`: decimal numbers, unsigned-integer parsing, whitespace-separated words.
  - `address`: IPv4 dotted-decimal text (parse and print), host addresses, reading
    the machine's public address from a query's output.
  - `sync`: the decisions of the loop that keeps the stored host address current.
  - `gcs`: media types, the `Cache-Control` header, multipart upload requests.
  - `cli`: subcommand dispatch and port pairs of the proxy tool.
  - `backup`: random passwords, command lines, settings, and the set-up and cycle
    decisions of the backup job.
- `app/`: the program: process, network, file and environment access, the async
  runtime, logging. Invoked as `backupjob…` it runs the backup job, otherwise the
  proxy tool.
- `tests/`: tests of the library on concrete values.
