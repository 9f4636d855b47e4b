# wasabi-speedtest-curl

An S3 connectivity and throughput probe that drives `curl` for every transfer
(uploads piped from memory with `curl -T -`, downloads to `/dev/null`), times
each one, classifies it, and summarises the run.

The decisions and parsers are a Verus-verified library (`src/`):

| module     | what it proves |
|------------|----------------|
| `status`   | status classification by curl exit code, HTTP code and elapsed time; labels |
| `transfer` | the result of a finished curl run, speed in bytes per second |
| `stats`    | per-direction tallies, averages, sorting, interpolated percentiles |
| `rolling`  | bounded window of recent samples and exact z-score rating |
| `wide`     | 256-bit unsigned arithmetic for the exact rating |
| `report`   | the detail line and summary tallies |
| `headers`  | the `x-wasabi-cm-reference-id` response header |
| `writeout` | curl's `--write-out` report |
| `version`  | `curl --version` and the 7.75 requirement |
| `command`  | the exact curl argument lists and reading their HTTP replies |
| `influx`   | InfluxDB line-protocol tags, write URL and token header |
| `session`  | directions, endpoint, `--resolve` pin, object keys, run-loop decisions, run ids |
| `text`     | lines, trimming, decimal parsing and formatting on `Seq<char>` |

Durations are whole nanoseconds and speeds bytes per second inside the
library; `app/` converts to and from the decimal seconds and MB/s shown to the
user, runs curl, reads the clock, prints, and posts to InfluxDB.
