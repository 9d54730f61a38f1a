# Weather skill

A skill that answers "what is the weather in ...?". It takes a request such as
`{"location": "Denver, CO", "units": "fahrenheit"}`, asks the Open-Meteo geocoding and forecast
services, and answers with a short report of the current weather and the next three days. A
request that fails is answered with `{"error": "..."}`.

- `src/` is the library, written in Verus: reading the request, dates and weekdays, addresses and
  percent-encoding, the forecast, the text of the report, and the order of the steps
  (`skill::execute`). Every function states what it returns, and the statements are proved.
- `app/` is the plugin around it: the host's interface, the JSON documents of the services and
  the arithmetic on floating-point numbers.
- `tests/` runs the library on examples.

Three things are taken on trust: `String::push`, `String::from_utf8_lossy` and
`serde_json::to_string` on a text do what the items that name them say.
